//! The scanner: a cursor over the full source text that yields one token per
//! production call, proved against the model in `model`.

use vstd::pervasive::unreached;
use vstd::prelude::*;
use vstd::string::StrSliceExecFns;
use vstd::string::StringExecFns;
use crate::chars::alnum;
use crate::chars::alnum_run_end;
use crate::chars::alpha;
use crate::chars::blank;
use crate::chars::comment_run_end;
use crate::chars::digit;
use crate::chars::is_alnum;
use crate::chars::is_digit;
use crate::chars::lemma_alnum_run_end;
use crate::chars::lemma_alnum_run_end_is;
use crate::chars::lemma_comment_run_end;
use crate::chars::lemma_comment_run_end_is;
use crate::chars::lemma_digit_run_end_is;
use crate::chars::lemma_newlines_in_snoc;
use crate::chars::lemma_string_run_end_is;
use crate::chars::newlines_in;
use crate::chars::string_run_end;
use crate::diag::Diagnostic;
use crate::diag::DiagKind;
use crate::diag::SpecDiag;
use crate::model::ScanTrace;
use crate::model::lemma_scan_progress;
use crate::model::number_end;
use crate::model::one_diag;
use crate::model::one_tok;
use crate::model::spec_scan_all;
use crate::model::spec_scan_token;
use crate::token::Kind;
use crate::token::SpecToken;
use crate::token::Token;
use crate::token::keyword_kind;

verus! {

/// The views of a sequence of diagnostics, element by element.
pub open spec fn diag_views(v: Seq<Diagnostic>) -> Seq<SpecDiag> {
    v.map_values(|d: Diagnostic| d@)
}

/// Appending one diagnostic appends its view.
pub proof fn lemma_diag_views_push(v: Seq<Diagnostic>, d: Diagnostic)
    ensures
        diag_views(v.push(d)) == diag_views(v) + one_diag(d@),
{
    assert(diag_views(v.push(d)) =~= diag_views(v) + one_diag(d@));
}

/// Concatenation of sequences is associative.
pub proof fn lemma_seq_assoc<A>(a: Seq<A>, b: Seq<A>, c: Seq<A>)
    ensures
        (a + b) + c == a + (b + c),
{
    assert((a + b) + c =~= a + (b + c));
}

/// The views of a sequence of tokens, element by element.
pub open spec fn token_views(v: Seq<Token>) -> Seq<SpecToken> {
    v.map_values(|t: Token| t@)
}

/// Appending one token appends its view.
pub proof fn lemma_token_views_push(v: Seq<Token>, t: Token)
    ensures
        token_views(v.push(t)) == token_views(v) + one_tok(t@),
{
    assert(token_views(v.push(t)) =~= token_views(v) + one_tok(t@));
}

/// The scanner cursor: the source as an indexable character sequence, the
/// index of the next unread character, the current 1-based line number, the
/// cumulative error flag with the diagnostics behind it, and the flag that
/// marks the stream as exhausted.
pub struct Lexer {
    text: String,
    chars: Vec<char>,
    index: usize,
    line: usize,
    error: bool,
    done: bool,
    diagnostics: Vec<Diagnostic>,
}

impl Lexer {
    /// The source as a character sequence.
    pub closed spec fn src(self) -> Seq<char> {
        self.chars@
    }

    /// The index of the next unread character.
    pub closed spec fn pos(self) -> int {
        self.index as int
    }

    /// The current 1-based line number.
    pub closed spec fn line_no(self) -> int {
        self.line as int
    }

    /// Whether any lexical error has been recorded so far.
    pub closed spec fn has_error(self) -> bool {
        self.error
    }

    /// Whether the terminal `Eof` has been yielded.
    pub closed spec fn is_done(self) -> bool {
        self.done
    }

    /// The diagnostics recorded so far, in order of discovery.
    pub closed spec fn diags(self) -> Seq<SpecDiag> {
        diag_views(self.diagnostics@)
    }

    /// The cursor's invariant: the two copies of the source agree, the index
    /// stays within the source, the line number is 1-based and can only have
    /// grown by consumed characters, the error flag agrees with the recorded
    /// diagnostics, and a finished scanner stands at the end of its input.
    pub closed spec fn wf(self) -> bool {
        &&& self.text@ == self.chars@
        &&& self.chars@.len() < usize::MAX
        &&& 1 <= self.line
        &&& self.line <= self.index + 1
        &&& self.index <= self.chars@.len()
        &&& self.error == (self.diags().len() > 0)
        &&& (self.done ==> self.index == self.chars@.len())
    }

    /// A scanner at the start of the given source: index zero, line one, no
    /// error recorded, not yet finished.
    pub fn new(s: &str) -> (r: Self)
        requires
            s@.len() < usize::MAX,
        ensures
            r.wf(),
            r.src() == s@,
            r.pos() == 0,
            r.line_no() == 1,
            !r.has_error(),
            !r.is_done(),
            r.diags() == Seq::<SpecDiag>::empty(),
    {
        let n = s.unicode_len();
        let mut chars: Vec<char> = Vec::new();
        let mut i: usize = 0;
        while i < n
            invariant
                i <= n,
                n == s@.len(),
                chars@.len() == i,
                forall|k: int| 0 <= k < i ==> chars@[k] == s@[k],
            decreases n - i,
        {
            chars.push(s.get_char(i));
            i += 1;
        }
        proof {
            assert(chars@ =~= s@);
        }
        let r = Lexer {
            text: String::from_str(s),
            chars,
            index: 0,
            line: 1,
            error: false,
            done: false,
            diagnostics: Vec::new(),
        };
        proof {
            assert(r.diags() =~= Seq::<SpecDiag>::empty());
        }
        r
    }

    /// The next unread character, if any, without moving the cursor.
    pub fn peek_char(&mut self) -> (r: Option<char>)
        ensures
            *final(self) == *old(self),
            r == (if old(self).pos() < old(self).src().len() {
                Some(old(self).src()[old(self).pos()])
            } else {
                None::<char>
            }),
    {
        if self.index >= self.chars.len() {
            None
        } else {
            Some(self.chars[self.index])
        }
    }

    /// The next unread character, if any; the cursor moves past it.
    pub fn read_char(&mut self) -> (r: Option<char>)
        ensures
            final(self).src() == old(self).src(),
            final(self).line_no() == old(self).line_no(),
            final(self).diags() == old(self).diags(),
            final(self).has_error() == old(self).has_error(),
            final(self).is_done() == old(self).is_done(),
            old(self).wf() ==> final(self).wf(),
            old(self).pos() < old(self).src().len() ==> r == Some(
                old(self).src()[old(self).pos()],
            ) && final(self).pos() == old(self).pos() + 1,
            old(self).pos() >= old(self).src().len() ==> r == None::<char> && final(self).pos()
                == old(self).pos(),
    {
        if self.index >= self.chars.len() {
            None
        } else {
            let c = self.chars[self.index];
            self.index = self.index + 1;
            Some(c)
        }
    }

    /// The number sub-scanner. Entered with the cursor on a digit, it
    /// consumes the maximal digit run, extended across one dot only when at
    /// least one digit follows it, and returns the verbatim lexeme; a
    /// trailing dot is backed off so it is re-scanned as its own token.
    pub fn read_number(&mut self) -> (r: Option<String>)
        requires
            old(self).wf(),
            old(self).pos() < old(self).src().len(),
            is_digit(old(self).src()[old(self).pos()]),
        ensures
            final(self).wf(),
            final(self).src() == old(self).src(),
            final(self).line_no() == old(self).line_no(),
            final(self).diags() == old(self).diags(),
            final(self).has_error() == old(self).has_error(),
            final(self).is_done() == old(self).is_done(),
            ({
                let e = number_end(old(self).src(), old(self).pos());
                &&& final(self).pos() == e
                &&& r matches Some(lex) && lex@ == old(self).src().subrange(old(self).pos(), e)
            }),
    {
        let ghost s = self.chars@;
        let start = self.index;
        let mut had_dot = false;
        let ghost mut dot_pos: int = 0;
        while self.index < self.chars.len() && (digit(self.chars[self.index])
            || (self.chars[self.index] == '.' && !had_dot))
            invariant
                self.text@ == s,
                self.chars@ == s,
                s.len() < usize::MAX,
                self.line == old(self).line,
                self.error == old(self).error,
                self.done == old(self).done,
                self.diagnostics@ == old(self).diagnostics@,
                start == old(self).index,
                start <= self.index <= s.len(),
                old(self).line <= start + 1,
                1 <= old(self).line,
                is_digit(s[start as int]),
                start < s.len(),
                !had_dot ==> forall|k: int| start <= k < self.index ==> is_digit(s[k]),
                had_dot ==> start <= dot_pos < self.index && s[dot_pos] == '.' && (forall|k: int|
                    start <= k < dot_pos ==> is_digit(s[k])) && (forall|k: int|
                    dot_pos < k < self.index ==> is_digit(s[k])),
            decreases s.len() - self.index,
        {
            if self.chars[self.index] == '.' {
                had_dot = true;
                proof {
                    dot_pos = self.index as int;
                }
            }
            self.index = self.index + 1;
        }
        proof {
            assert(self.index > start);
        }
        // back off a trailing dot so it is re-scanned as its own token
        if self.chars[self.index - 1] == '.' {
            self.index = self.index - 1;
        }
        proof {
            let x = self.index as int;
            if !had_dot {
                lemma_digit_run_end_is(s, start as int, x);
            } else {
                lemma_digit_run_end_is(s, start as int, dot_pos);
                if x == dot_pos {
                    // the dot had no digit after it and was backed off
                } else {
                    lemma_digit_run_end_is(s, dot_pos + 1, x);
                }
            }
            assert(self.index as int == number_end(s, start as int));
        }
        let lex = self.text.as_str().substring_char(start, self.index).to_owned();
        Some(lex)
    }

    /// The identifier sub-scanner: consumes the maximal run of letters,
    /// digits and underscores from the cursor and returns its spelling, or
    /// `None` when the cursor does not stand on such a character.
    pub fn read_ident(&mut self) -> (r: Option<String>)
        requires
            old(self).wf(),
        ensures
            final(self).wf(),
            final(self).src() == old(self).src(),
            final(self).line_no() == old(self).line_no(),
            final(self).diags() == old(self).diags(),
            final(self).has_error() == old(self).has_error(),
            final(self).is_done() == old(self).is_done(),
            ({
                let e = alnum_run_end(old(self).src(), old(self).pos());
                &&& final(self).pos() == e
                &&& (e == old(self).pos() ==> r is None)
                &&& (e != old(self).pos() ==> (r matches Some(w) && w@ == old(self).src().subrange(
                    old(self).pos(),
                    e,
                )))
            }),
    {
        let ghost s = self.chars@;
        let start = self.index;
        while self.index < self.chars.len() && alnum(self.chars[self.index])
            invariant
                self.text@ == s,
                self.chars@ == s,
                s.len() < usize::MAX,
                self.line == old(self).line,
                self.error == old(self).error,
                self.done == old(self).done,
                self.diagnostics@ == old(self).diagnostics@,
                start == old(self).index,
                start <= self.index <= s.len(),
                old(self).line <= start + 1,
                1 <= old(self).line,
                old(self).done ==> old(self).index == s.len(),
                forall|k: int| start <= k < self.index ==> is_alnum(s[k]),
            decreases s.len() - self.index,
        {
            self.index = self.index + 1;
        }
        proof {
            lemma_alnum_run_end_is(s, start as int, self.index as int);
        }
        if self.index == start {
            None
        } else {
            Some(self.text.as_str().substring_char(start, self.index).to_owned())
        }
    }

    /// Consumes the next character exactly when it is the expected one: the
    /// lookahead behind the two-character operators and the comment marker.
    fn consume_if(&mut self, expected: char) -> (r: bool)
        ensures
            final(self).src() == old(self).src(),
            final(self).line_no() == old(self).line_no(),
            final(self).diags() == old(self).diags(),
            final(self).has_error() == old(self).has_error(),
            final(self).is_done() == old(self).is_done(),
            old(self).wf() ==> final(self).wf(),
            r == (old(self).pos() < old(self).src().len() && old(self).src()[old(self).pos()]
                == expected),
            final(self).pos() == (if r {
                old(self).pos() + 1
            } else {
                old(self).pos()
            }),
    {
        match self.peek_char() {
            Some(x) => {
                if x == expected {
                    let _ = self.read_char();
                    true
                } else {
                    false
                }
            },
            None => false,
        }
    }

    /// Consumes a comment body: everything up to, not including, the next
    /// newline, so that the newline itself is scanned as usual afterwards.
    fn skip_comment(&mut self)
        requires
            old(self).wf(),
            !old(self).is_done(),
        ensures
            final(self).wf(),
            final(self).src() == old(self).src(),
            final(self).line_no() == old(self).line_no(),
            final(self).diags() == old(self).diags(),
            final(self).has_error() == old(self).has_error(),
            final(self).is_done() == old(self).is_done(),
            final(self).pos() == comment_run_end(old(self).src(), old(self).pos()),
    {
        let ghost s = self.chars@;
        let ghost start = self.index as int;
        while self.index < self.chars.len() && self.chars[self.index] != '\n'
            invariant
                self.wf(),
                !self.done,
                self.chars@ == s,
                self.line == old(self).line,
                self.error == old(self).error,
                self.diagnostics@ == old(self).diagnostics@,
                start == old(self).index,
                start <= self.index <= s.len(),
                forall|k: int| start <= k < self.index ==> s[k] != '\n',
            decreases s.len() - self.index,
        {
            self.index = self.index + 1;
        }
        proof {
            lemma_comment_run_end_is(s, start, self.index as int);
        }
    }

    /// The string sub-scanner. Entered just past the opening quote, it
    /// consumes up to and including the closing quote and returns the body
    /// strictly between the quotes, counting every newline it consumes.
    /// When the input ends first it returns `None`: the whole rest of the
    /// input has been consumed, one unterminated-string diagnostic stands
    /// recorded at the line the call began on, and the scanner is finished.
    fn string_token(&mut self) -> (r: Option<String>)
        requires
            old(self).wf(),
            !old(self).is_done(),
        ensures
            final(self).wf(),
            final(self).src() == old(self).src(),
            ({
                let s = old(self).src();
                let b = old(self).pos();
                let e = string_run_end(s, b);
                if e < s.len() {
                    &&& (r matches Some(body) && body@ == s.subrange(b, e))
                    &&& final(self).pos() == e + 1
                    &&& final(self).line_no() == old(self).line_no() + newlines_in(s, b, e)
                    &&& final(self).diags() == old(self).diags()
                    &&& final(self).has_error() == old(self).has_error()
                    &&& final(self).is_done() == old(self).is_done()
                } else {
                    &&& r is None
                    &&& final(self).pos() == s.len()
                    &&& final(self).line_no() == old(self).line_no() + newlines_in(
                        s,
                        b,
                        s.len() as int,
                    )
                    &&& final(self).diags() == old(self).diags() + one_diag(
                        SpecDiag { line: old(self).line_no(), kind: DiagKind::UnterminatedString },
                    )
                    &&& final(self).has_error()
                    &&& final(self).is_done()
                }
            }),
    {
        let ghost s = self.chars@;
        let ghost b = self.index as int;
        let start = self.index;
        let start_line = self.line;
        proof {
            assert(newlines_in(s, b, b) == 0);
        }
        while self.index < self.chars.len() && self.chars[self.index] != '"'
            invariant
                self.wf(),
                !self.done,
                self.chars@ == s,
                self.error == old(self).error,
                self.diagnostics@ == old(self).diagnostics@,
                start as int == b,
                start_line == old(self).line,
                b == old(self).index,
                b <= self.index <= s.len(),
                forall|k: int| b <= k < self.index ==> s[k] != '"',
                self.line as int == old(self).line + newlines_in(s, b, self.index as int),
            decreases s.len() - self.index,
        {
            proof {
                lemma_newlines_in_snoc(s, b, self.index as int);
            }
            if self.chars[self.index] == '\n' {
                self.line = self.line + 1;
            }
            self.index = self.index + 1;
        }
        proof {
            lemma_string_run_end_is(s, b, self.index as int);
        }
        if self.index < self.chars.len() {
            let body = self.text.as_str().substring_char(start, self.index).to_owned();
            self.index = self.index + 1;
            Some(body)
        } else {
            // unterminated: report it at the line the string began on, and
            // end the run
            let ghost dsnap = self.diagnostics@;
            self.diagnostics.push(
                Diagnostic { line: start_line, kind: DiagKind::UnterminatedString },
            );
            self.error = true;
            self.done = true;
            proof {
                lemma_diag_views_push(
                    dsnap,
                    Diagnostic { line: start_line, kind: DiagKind::UnterminatedString },
                );
            }
            None
        }
    }

    /// Records an unexpected-character diagnostic at the current line and
    /// sets the cumulative error flag; the cursor does not move.
    fn record_unexpected(&mut self, c: char)
        requires
            old(self).wf(),
        ensures
            final(self).wf(),
            final(self).src() == old(self).src(),
            final(self).pos() == old(self).pos(),
            final(self).line_no() == old(self).line_no(),
            final(self).is_done() == old(self).is_done(),
            final(self).has_error(),
            final(self).diags() == old(self).diags() + one_diag(
                SpecDiag { line: old(self).line_no(), kind: DiagKind::UnexpectedChar(c) },
            ),
    {
        let here = self.line;
        let ghost dsnap = self.diagnostics@;
        self.diagnostics.push(Diagnostic { line: here, kind: DiagKind::UnexpectedChar(c) });
        self.error = true;
        proof {
            lemma_diag_views_push(
                dsnap,
                Diagnostic { line: here, kind: DiagKind::UnexpectedChar(c) },
            );
        }
    }

    /// One production call: yields the next token of the source, consuming
    /// whitespace, comments and erroneous input on the way, exactly as the
    /// model `spec_scan_token` describes. The error flag is cumulative and
    /// every diagnostic discovered on the way is appended; after the call
    #[verifier::rlimit(100)]
    #[verifier::spinoff_prover]
    pub fn read_token(&mut self) -> (t: Token)
        requires
            old(self).wf(),
            !old(self).is_done(),
        ensures
            final(self).wf(),
            final(self).src() == old(self).src(),
            ({
                let step = spec_scan_token(old(self).src(), old(self).pos(), old(self).line_no());
                &&& t@ == step.tok
                &&& final(self).pos() == step.next
                &&& final(self).line_no() == step.line
                &&& final(self).diags() == old(self).diags() + step.diags
                &&& final(self).has_error() == (old(self).has_error() || step.diags.len() > 0)
                &&& final(self).is_done() == (step.tok == SpecToken::Simple(Kind::Eof))
            }),
        decreases old(self).src().len() - old(self).pos(),
    {
        let ghost s = self.chars@;
        let ghost i = self.index as int;
        let ghost l = self.line as int;
        proof {
            assert(old(self).diags() + Seq::<SpecDiag>::empty() =~= old(self).diags());
        }
        let c = match self.read_char() {
            None => {
                self.done = true;
                return Token::Simple(Kind::Eof);
            },
            Some(c) => c,
        };
        if c == '(' {
            Token::Simple(Kind::LeftParen)
        } else if c == ')' {
            Token::Simple(Kind::RightParen)
        } else if c == '{' {
            Token::Simple(Kind::LeftBrace)
        } else if c == '}' {
            Token::Simple(Kind::RightBrace)
        } else if c == ';' {
            Token::Simple(Kind::Semicolon)
        } else if c == '*' {
            Token::Simple(Kind::Star)
        } else if c == '.' {
            Token::Simple(Kind::Dot)
        } else if c == ',' {
            Token::Simple(Kind::Comma)
        } else if c == '+' {
            Token::Simple(Kind::Plus)
        } else if c == '-' {
            Token::Simple(Kind::Minus)
        } else if c == '=' {
            if self.consume_if('=') {
                Token::Simple(Kind::EqualEqual)
            } else {
                Token::Simple(Kind::Equal)
            }
        } else if c == '!' {
            if self.consume_if('=') {
                Token::Simple(Kind::BangEqual)
            } else {
                Token::Simple(Kind::Bang)
            }
        } else if c == '<' {
            if self.consume_if('=') {
                Token::Simple(Kind::LessEqual)
            } else {
                Token::Simple(Kind::Less)
            }
        } else if c == '>' {
            if self.consume_if('=') {
                Token::Simple(Kind::GreaterEqual)
            } else {
                Token::Simple(Kind::Greater)
            }
        } else if c == '/' {
            if self.consume_if('/') {
                // a comment produces no token; it reaches up to, not
                // including, the next newline, and scanning resumes there
                proof {
                    lemma_comment_run_end(s, i + 2);
                }
                self.skip_comment();
                self.read_token()
            } else {
                Token::Simple(Kind::Slash)
            }
        } else if c == '"' {
            match self.string_token() {
                Some(body) => Token::StringLit(body),
                None => Token::Simple(Kind::Eof),
            }
        } else if digit(c) {
            // re-scan the digit as the number's first character
            self.index = self.index - 1;
            match self.read_number() {
                Some(lex) => Token::Number(lex),
                None => unreached(),
            }
        } else if alpha(c) {
            // re-scan the character as the identifier's first character
            self.index = self.index - 1;
            proof {
                lemma_alnum_run_end(s, i);
            }
            match self.read_ident() {
                Some(w) => {
                    match keyword_kind(w.as_str()) {
                        Some(k) => Token::Simple(k),
                        None => Token::Identifier(w),
                    }
                },
                None => unreached(),
            }
        } else if c == '\n' {
            self.line = self.line + 1;
            self.read_token()
        } else if blank(c) {
            self.read_token()
        } else {
            // unexpected character: report it at the current line, and
            // resume scanning with the next character
            let ghost d = SpecDiag { line: l, kind: DiagKind::UnexpectedChar(c) };
            self.record_unexpected(c);
            let t = self.read_token();
            proof {
                let rest = spec_scan_token(s, i + 1, l);
                lemma_seq_assoc(old(self).diags(), one_diag(d), rest.diags);
            }
            t
        }
    }

    /// Whether any lexical error has been recorded so far.
    pub fn had_error(&self) -> (r: bool)
        ensures
            r == self.has_error(),
    {
        self.error
    }

    /// Whether the terminal `Eof` has been yielded.
    pub fn finished(&self) -> (r: bool)
        ensures
            r == self.is_done(),
    {
        self.done
    }

    /// The current 1-based line number.
    pub fn current_line(&self) -> (r: usize)
        ensures
            r as int == self.line_no(),
    {
        self.line
    }

    /// The diagnostics recorded so far, in order of discovery.
    pub fn diagnostics(&self) -> (r: &Vec<Diagnostic>)
        ensures
            diag_views(r@) == self.diags(),
    {
        &self.diagnostics
    }

    /// One pull of the production interface: the next token, or `None` once
    /// the terminal `Eof` has been yielded; after that first `Eof` the
    /// scanner yields nothing further.
    pub fn next(&mut self) -> (r: Option<Token>)
        requires
            old(self).wf(),
        ensures
            final(self).wf(),
            final(self).src() == old(self).src(),
            old(self).is_done() ==> r is None && *final(self) == *old(self),
            !old(self).is_done() ==> ({
                let step = spec_scan_token(old(self).src(), old(self).pos(), old(self).line_no());
                &&& (r matches Some(t) && t@ == step.tok)
                &&& final(self).pos() == step.next
                &&& final(self).line_no() == step.line
                &&& final(self).diags() == old(self).diags() + step.diags
                &&& final(self).has_error() == (old(self).has_error() || step.diags.len() > 0)
                &&& final(self).is_done() == (step.tok == SpecToken::Simple(Kind::Eof))
            }),
    {
        if self.done {
            None
        } else {
            Some(self.read_token())
        }
    }
}

/// Scans a whole source text in one pass: every token in source order ending
/// with the single terminal `Eof`, every diagnostic in order of discovery,
/// and the cumulative error flag, exactly as the model `spec_scan_all`
/// describes.
#[verifier::loop_isolation(false)]
pub fn tokenize(input: &str) -> (out: (Vec<Token>, Vec<Diagnostic>, bool))
    requires
        input@.len() < usize::MAX,
    ensures
        token_views(out.0@) == spec_scan_all(input@, 0, 1).toks,
        diag_views(out.1@) == spec_scan_all(input@, 0, 1).diags,
        out.2 == (spec_scan_all(input@, 0, 1).diags.len() > 0),
{
    let ghost s = input@;
    let mut lx = Lexer::new(input);
    let mut toks: Vec<Token> = Vec::new();
    proof {
        assert(token_views(toks@) =~= Seq::<SpecToken>::empty());
        assert(Seq::<SpecToken>::empty() + spec_scan_all(s, 0, 1).toks =~= spec_scan_all(
            s,
            0,
            1,
        ).toks);
        assert(Seq::<SpecDiag>::empty() + spec_scan_all(s, 0, 1).diags =~= spec_scan_all(
            s,
            0,
            1,
        ).diags);
    }
    loop
        invariant
            lx.wf(),
            !lx.is_done(),
            lx.src() == s,
            ({
                let full = spec_scan_all(s, 0, 1);
                let rest = spec_scan_all(s, lx.pos(), lx.line_no());
                &&& full.toks == token_views(toks@) + rest.toks
                &&& full.diags == lx.diags() + rest.diags
            }),
        decreases s.len() - lx.pos(),
    {
        let ghost p = lx.pos();
        let ghost ln = lx.line_no();
        let ghost tsnap = toks@;
        let ghost dsnap = lx.diags();
        let t = lx.read_token();
        let is_eof = matches!(t, Token::Simple(Kind::Eof));
        let ghost step = spec_scan_token(s, p, ln);
        proof {
            lemma_scan_progress(s, p, ln);
            lemma_token_views_push(tsnap, t);
        }
        toks.push(t);
        if is_eof {
            proof {
                assert(step.tok == SpecToken::Simple(Kind::Eof));
                assert(spec_scan_all(s, p, ln) == ScanTrace {
                    toks: one_tok(step.tok),
                    diags: step.diags,
                });
            }
            let err = lx.had_error();
            let Lexer { diagnostics: ds, .. } = lx;
            return (toks, ds, err);
        }
        proof {
            let rest1 = spec_scan_all(s, step.next, step.line);
            assert(spec_scan_all(s, p, ln) == ScanTrace {
                toks: one_tok(step.tok) + rest1.toks,
                diags: step.diags + rest1.diags,
            });
            lemma_seq_assoc(token_views(tsnap), one_tok(step.tok), rest1.toks);
            lemma_seq_assoc(dsnap, step.diags, rest1.diags);
        }
    }
}

} // verus!
