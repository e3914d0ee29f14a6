//! The mathematical model of scanning: what one production call yields from a
//! given cursor position, and what a whole run yields, as pure functions of
//! the source text.

use vstd::prelude::*;
use crate::chars::alnum_run_end;
use crate::chars::comment_run_end;
use crate::chars::digit_run_end;
use crate::chars::is_alpha;
use crate::chars::is_blank;
use crate::chars::is_digit;
use crate::chars::lemma_alnum_run_end;
use crate::chars::lemma_comment_run_end;
use crate::chars::lemma_digit_run_end;
use crate::chars::lemma_newlines_in_bounds;
use crate::chars::lemma_string_run_end;
use crate::chars::newlines_in;
use crate::chars::string_run_end;
use crate::diag::DiagKind;
use crate::diag::SpecDiag;
use crate::token::Kind;
use crate::token::SpecToken;
use crate::token::keyword_for;

verus! {

/// What one production call yields: the token, the cursor position and line
/// after it, and the diagnostics reported on the way to it.
#[verifier::ext_equal]
pub struct ScanStep {
    pub tok: SpecToken,
    pub next: int,
    pub line: int,
    pub diags: Seq<SpecDiag>,
}

/// A single reported diagnostic as a sequence.
pub open spec fn one_diag(d: SpecDiag) -> Seq<SpecDiag> {
    Seq::empty().push(d)
}

/// A single token as a sequence.
pub open spec fn one_tok(t: SpecToken) -> Seq<SpecToken> {
    Seq::empty().push(t)
}

/// A one-character token at position `i`.
pub open spec fn single_step(k: Kind, i: int, line: int) -> ScanStep {
    ScanStep { tok: SpecToken::Simple(k), next: i + 1, line, diags: Seq::empty() }
}

/// A token at position `i` that is extended by one character when the next
/// character is `=`: the combined form consumes both characters, the plain
/// form only the first.
pub open spec fn operator_step(s: Seq<char>, i: int, line: int, plain: Kind, combined: Kind) -> ScanStep {
    if i + 1 < s.len() && s[i + 1] == '=' {
        ScanStep { tok: SpecToken::Simple(combined), next: i + 2, line, diags: Seq::empty() }
    } else {
        ScanStep { tok: SpecToken::Simple(plain), next: i + 1, line, diags: Seq::empty() }
    }
}

/// The end of the number that starts at the digit at `i`: the maximal digit
/// run, extended across a dot only when at least one digit follows it, so
/// that a trailing dot is left to be re-scanned as its own token.
pub open spec fn number_end(s: Seq<char>, i: int) -> int {
    let d = digit_run_end(s, i);
    if d < s.len() && s[d] == '.' && d + 1 < s.len() && is_digit(s[d + 1]) {
        digit_run_end(s, d + 1)
    } else {
        d
    }
}

/// What one production call yields from source `s` at position `i` on line
/// `line`: longest-match dispatch on the first character, with whitespace,
/// comments and erroneous input consumed without producing a token, and the
/// end of input yielding the terminal `Eof`.
pub open spec fn spec_scan_token(s: Seq<char>, i: int, line: int) -> ScanStep
    decreases s.len() - i,
{
    if i < 0 || i >= s.len() {
        ScanStep { tok: SpecToken::Simple(Kind::Eof), next: i, line, diags: Seq::empty() }
    } else {
        let c = s[i];
        if c == '(' {
            single_step(Kind::LeftParen, i, line)
        } else if c == ')' {
            single_step(Kind::RightParen, i, line)
        } else if c == '{' {
            single_step(Kind::LeftBrace, i, line)
        } else if c == '}' {
            single_step(Kind::RightBrace, i, line)
        } else if c == ';' {
            single_step(Kind::Semicolon, i, line)
        } else if c == '*' {
            single_step(Kind::Star, i, line)
        } else if c == '.' {
            single_step(Kind::Dot, i, line)
        } else if c == ',' {
            single_step(Kind::Comma, i, line)
        } else if c == '+' {
            single_step(Kind::Plus, i, line)
        } else if c == '-' {
            single_step(Kind::Minus, i, line)
        } else if c == '=' {
            operator_step(s, i, line, Kind::Equal, Kind::EqualEqual)
        } else if c == '!' {
            operator_step(s, i, line, Kind::Bang, Kind::BangEqual)
        } else if c == '<' {
            operator_step(s, i, line, Kind::Less, Kind::LessEqual)
        } else if c == '>' {
            operator_step(s, i, line, Kind::Greater, Kind::GreaterEqual)
        } else if c == '/' {
            if i + 1 < s.len() && s[i + 1] == '/' {
                // a comment: consumed up to, not including, the next newline
                proof {
                    lemma_comment_run_end(s, i + 2);
                }
                spec_scan_token(s, comment_run_end(s, i + 2), line)
            } else {
                single_step(Kind::Slash, i, line)
            }
        } else if c == '"' {
            let e = string_run_end(s, i + 1);
            if e < s.len() {
                ScanStep {
                    tok: SpecToken::StringLit(s.subrange(i + 1, e)),
                    next: e + 1,
                    line: line + newlines_in(s, i + 1, e),
                    diags: Seq::empty(),
                }
            } else {
                // unterminated: everything to the end of input is consumed,
                // one diagnostic is reported at the line the string began on,
                // and the run ends
                ScanStep {
                    tok: SpecToken::Simple(Kind::Eof),
                    next: s.len() as int,
                    line: line + newlines_in(s, i + 1, s.len() as int),
                    diags: one_diag(SpecDiag { line, kind: DiagKind::UnterminatedString }),
                }
            }
        } else if is_digit(c) {
            ScanStep {
                tok: SpecToken::Number(s.subrange(i, number_end(s, i))),
                next: number_end(s, i),
                line,
                diags: Seq::empty(),
            }
        } else if is_alpha(c) {
            let e = alnum_run_end(s, i);
            let w = s.subrange(i, e);
            ScanStep {
                tok: match keyword_for(w) {
                    Some(k) => SpecToken::Simple(k),
                    None => SpecToken::Identifier(w),
                },
                next: e,
                line,
                diags: Seq::empty(),
            }
        } else if c == '\n' {
            spec_scan_token(s, i + 1, line + 1)
        } else if is_blank(c) {
            spec_scan_token(s, i + 1, line)
        } else {
            let rest = spec_scan_token(s, i + 1, line);
            ScanStep {
                tok: rest.tok,
                next: rest.next,
                line: rest.line,
                diags: one_diag(SpecDiag { line, kind: DiagKind::UnexpectedChar(c) }) + rest.diags,
            }
        }
    }
}

/// A production call never moves the cursor backwards or past the end, only
/// yields `Eof` with the cursor at the end, and advances the line counter by
/// at most one per consumed character.
pub proof fn lemma_scan_progress(s: Seq<char>, i: int, line: int)
    requires
        0 <= i <= s.len(),
    ensures
        ({
            let step = spec_scan_token(s, i, line);
            &&& i <= step.next <= s.len()
            &&& (step.tok != SpecToken::Simple(Kind::Eof) ==> step.next > i)
            &&& (step.tok == SpecToken::Simple(Kind::Eof) ==> step.next == s.len())
            &&& line <= step.line <= line + (step.next - i)
        }),
    decreases s.len() - i,
{
    if i >= s.len() {
    } else {
        let c = s[i];
        if c == '/' && i + 1 < s.len() && s[i + 1] == '/' {
            lemma_comment_run_end(s, i + 2);
            lemma_scan_progress(s, comment_run_end(s, i + 2), line);
        } else if c == '"' {
            lemma_string_run_end(s, i + 1);
            let e = string_run_end(s, i + 1);
            if e < s.len() {
                lemma_newlines_in_bounds(s, i + 1, e);
            } else {
                lemma_newlines_in_bounds(s, i + 1, s.len() as int);
            }
        } else if is_digit(c) {
            lemma_digit_run_end(s, i);
            let d = digit_run_end(s, i);
            if d < s.len() && s[d] == '.' && d + 1 < s.len() && is_digit(s[d + 1]) {
                lemma_digit_run_end(s, d + 1);
            }
        } else if is_alpha(c) {
            lemma_alnum_run_end(s, i);
        } else if c == '\n' {
            lemma_scan_progress(s, i + 1, line + 1);
        } else if is_blank(c) {
            lemma_scan_progress(s, i + 1, line);
        } else if c == '(' || c == ')' || c == '{' || c == '}' || c == ';' || c == '*' || c == '.'
            || c == ',' || c == '+' || c == '-' || c == '=' || c == '!' || c == '<' || c == '>'
            || c == '/' {
        } else {
            lemma_scan_progress(s, i + 1, line);
        }
    }
}

/// What a whole run yields: the tokens in source order, ending with the
/// single terminal `Eof`, and every diagnostic in order of discovery.
#[verifier::ext_equal]
pub struct ScanTrace {
    pub toks: Seq<SpecToken>,
    pub diags: Seq<SpecDiag>,
}

/// The token stream and diagnostics of a whole run that starts at position
/// `i` on line `line`.
pub open spec fn spec_scan_all(s: Seq<char>, i: int, line: int) -> ScanTrace
    decreases s.len() - i,
{
    if i < 0 || i > s.len() {
        ScanTrace { toks: one_tok(SpecToken::Simple(Kind::Eof)), diags: Seq::empty() }
    } else {
        let step = spec_scan_token(s, i, line);
        if step.tok == SpecToken::Simple(Kind::Eof) {
            ScanTrace { toks: one_tok(step.tok), diags: step.diags }
        } else {
            proof {
                lemma_scan_progress(s, i, line);
            }
            let rest = spec_scan_all(s, step.next, step.line);
            ScanTrace { toks: one_tok(step.tok) + rest.toks, diags: step.diags + rest.diags }
        }
    }
}

} // verus!

