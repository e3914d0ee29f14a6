//! The general laws of the scanner, stated over the model and proved once
//! for every source text.

use vstd::prelude::*;
use crate::chars::is_alnum;
use crate::chars::is_alpha;
use crate::chars::is_blank;
use crate::chars::is_digit;
use crate::chars::lemma_alnum_run_end_is;
use crate::chars::lemma_comment_run_end_is;
use crate::chars::lemma_digit_run_end_is;
use crate::chars::lemma_string_run_end_is;
use crate::diag::DiagKind;
use crate::diag::SpecDiag;
use crate::model::lemma_scan_progress;
use crate::model::one_diag;
use crate::model::one_tok;
use crate::model::spec_scan_all;
use crate::model::spec_scan_token;
use crate::token::Kind;
use crate::token::SpecToken;
use crate::token::keyword_for;
use crate::token::lexeme_of;
use crate::token::literal_of;

verus! {

/// A character that begins some scanning rule: punctuation, an operator, a
/// comment or slash, a string, a number, an identifier, or skippable
/// whitespace. Any other character is reported as unexpected.
pub open spec fn recognized(c: char) -> bool {
    ||| c == '(' || c == ')' || c == '{' || c == '}' || c == ';' || c == '*' || c == '.'
    ||| c == ',' || c == '+' || c == '-' || c == '=' || c == '!' || c == '<' || c == '>'
    ||| c == '/' || c == '"'
    ||| is_digit(c)
    ||| is_alpha(c)
    ||| c == '\n'
    ||| is_blank(c)
}

/// Every run's token stream ends with the terminal `Eof`, whose lexeme is
/// empty and whose printed literal is `null`, and no token after the first
/// `Eof` exists: `Eof` never appears anywhere but last.
pub proof fn lemma_stream_ends_with_eof(s: Seq<char>, i: int, line: int)
    requires
        0 <= i <= s.len(),
    ensures
        ({
            let tr = spec_scan_all(s, i, line);
            &&& tr.toks.len() >= 1
            &&& tr.toks.last() == SpecToken::Simple(Kind::Eof)
            &&& lexeme_of(tr.toks.last()).len() == 0
            &&& literal_of(tr.toks.last()) == Some("null"@)
            &&& forall|k: int|
                0 <= k < tr.toks.len() - 1 ==> tr.toks[k] != SpecToken::Simple(Kind::Eof)
        }),
    decreases s.len() - i,
{
    lemma_scan_progress(s, i, line);
    let step = spec_scan_token(s, i, line);
    let tr = spec_scan_all(s, i, line);
    if step.tok == SpecToken::Simple(Kind::Eof) {
        assert(tr.toks == one_tok(step.tok));
        assert(tr.toks.len() == 1);
    } else {
        lemma_stream_ends_with_eof(s, step.next, step.line);
        let rest = spec_scan_all(s, step.next, step.line);
        assert(tr.toks == one_tok(step.tok) + rest.toks);
        assert(tr.toks.len() == 1 + rest.toks.len());
        assert(tr.toks.last() == rest.toks.last());
        assert forall|k: int|
            0 <= k < tr.toks.len() - 1 implies tr.toks[k] != SpecToken::Simple(
            Kind::Eof,
        ) by {
            if k == 0 {
                assert(tr.toks[0] == step.tok);
            } else {
                assert(tr.toks[k] == rest.toks[k - 1]);
            }
        }
    }
}

/// A string literal with no embedded quote scans to one `StringLit` token
/// holding exactly the text between the quotes; its lexeme is the verbatim
/// quoted source text and its printed literal is the unwrapped body.
pub proof fn lemma_string_literal_token(s: Seq<char>, body: Seq<char>, line: int)
    requires
        s.len() >= body.len() + 2,
        s[0] == '"',
        s.subrange(1, body.len() as int + 1) == body,
        s[body.len() as int + 1] == '"',
        forall|k: int| 0 <= k < body.len() ==> body[k] != '"',
    ensures
        ({
            let step = spec_scan_token(s, 0, line);
            &&& step.tok == SpecToken::StringLit(body)
            &&& step.next == body.len() + 2
            &&& step.diags == Seq::<SpecDiag>::empty()
            &&& lexeme_of(step.tok) == s.subrange(0, body.len() as int + 2)
            &&& literal_of(step.tok) == Some(body)
        }),
{
    let n = body.len() as int;
    assert forall|k: int| 1 <= k < n + 1 implies s[k] != '"' by {
        assert(s.subrange(1, n + 1)[k - 1] == s[k]);
    }
    lemma_string_run_end_is(s, 1, n + 1);
    assert(spec_scan_token(s, 0, line).tok == SpecToken::StringLit(s.subrange(1, n + 1)));
    assert(lexeme_of(SpecToken::StringLit(body)) =~= s.subrange(0, n + 2)) by {
        assert forall|k: int| 0 <= k < n implies body[k] == s[k + 1] by {
            assert(s.subrange(1, n + 1)[k] == s[k + 1]);
        }
    }
}

/// In a number, a trailing dot with no digit after it is excluded: the
/// `Number` token holds only the digits before it, and the dot itself is
/// re-scanned as a separate `Dot` token.
pub proof fn lemma_number_trailing_dot(s: Seq<char>, n: int, line: int)
    requires
        1 <= n < s.len(),
        forall|k: int| 0 <= k < n ==> is_digit(s[k]),
        s[n] == '.',
        n + 1 == s.len() || !is_digit(s[n + 1]),
    ensures
        ({
            let step = spec_scan_token(s, 0, line);
            &&& step.tok == SpecToken::Number(s.subrange(0, n))
            &&& step.next == n
            &&& spec_scan_token(s, n, line).tok == SpecToken::Simple(Kind::Dot)
            &&& spec_scan_token(s, n, line).next == n + 1
        }),
{
    lemma_digit_run_end_is(s, 0, n);
}

/// A digit run with one interior dot followed by at least one digit scans to
/// a single `Number` token whose lexeme is the whole run, dot included.
pub proof fn lemma_number_with_fraction(s: Seq<char>, a: int, b: int, line: int)
    requires
        1 <= a,
        a + 1 < b <= s.len(),
        forall|k: int| 0 <= k < a ==> is_digit(s[k]),
        s[a] == '.',
        forall|k: int| a + 1 <= k < b ==> is_digit(s[k]),
        b == s.len() || !is_digit(s[b]),
    ensures
        ({
            let step = spec_scan_token(s, 0, line);
            &&& step.tok == SpecToken::Number(s.subrange(0, b))
            &&& step.next == b
        }),
{
    lemma_digit_run_end_is(s, 0, a);
    lemma_digit_run_end_is(s, a + 1, b);
}

/// A maximal identifier-character run that matches the reserved-word table
/// scans to that reserved word's token, never to an `Identifier`.
pub proof fn lemma_keyword_not_identifier(s: Seq<char>, w: Seq<char>, line: int, k: Kind)
    requires
        1 <= w.len() <= s.len(),
        s.subrange(0, w.len() as int) == w,
        is_alpha(w[0]),
        forall|j: int| 0 <= j < w.len() ==> is_alnum(w[j]),
        w.len() == s.len() || !is_alnum(s[w.len() as int]),
        keyword_for(w) == Some(k),
    ensures
        ({
            let step = spec_scan_token(s, 0, line);
            &&& step.tok == SpecToken::Simple(k)
            &&& !(step.tok is Identifier)
            &&& step.next == w.len()
        }),
{
    let n = w.len() as int;
    assert forall|j: int| 0 <= j < n implies s[j] == w[j] by {
        assert(s.subrange(0, n)[j] == s[j]);
    }
    lemma_alnum_run_end_is(s, 0, n);
}

/// A line comment produces no token and leaves scanning exactly where it
/// would be at the position after the comment body, on the same line: the
/// newline that ends it, if any, is scanned as usual afterwards.
pub proof fn lemma_comment_produces_no_token(s: Seq<char>, n: int, line: int)
    requires
        2 <= n <= s.len(),
        s[0] == '/',
        s[1] == '/',
        forall|k: int| 2 <= k < n ==> s[k] != '\n',
        n == s.len() || s[n] == '\n',
    ensures
        spec_scan_token(s, 0, line) == spec_scan_token(s, n, line),
{
    lemma_comment_run_end_is(s, 2, n);
}

/// An unexpected character is reported as one diagnostic at the line it
/// stands on, and token production continues undisturbed with the next
/// character.
pub proof fn lemma_unexpected_char_reported(s: Seq<char>, i: int, line: int)
    requires
        0 <= i < s.len(),
        !recognized(s[i]),
    ensures
        ({
            let step = spec_scan_token(s, i, line);
            let rest = spec_scan_token(s, i + 1, line);
            &&& step.diags == one_diag(SpecDiag { line, kind: DiagKind::UnexpectedChar(s[i]) })
                + rest.diags
            &&& step.tok == rest.tok
            &&& step.next == rest.next
            &&& step.line == rest.line
        }),
{
}

/// A string that is still open when the input ends is reported as exactly one
/// unterminated-string diagnostic at the line the string began on, and the
/// run ends with the terminal `Eof`.
pub proof fn lemma_unterminated_string_reported(s: Seq<char>, i: int, line: int)
    requires
        0 <= i < s.len(),
        s[i] == '"',
        forall|k: int| i + 1 <= k < s.len() ==> s[k] != '"',
    ensures
        ({
            let step = spec_scan_token(s, i, line);
            &&& step.diags == one_diag(SpecDiag { line, kind: DiagKind::UnterminatedString })
            &&& step.tok == SpecToken::Simple(Kind::Eof)
            &&& step.next == s.len()
        }),
{
    lemma_string_run_end_is(s, i + 1, s.len() as int);
}

} // verus!
