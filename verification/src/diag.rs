//! Diagnostics: the two recoverable lexical errors, tagged with the 1-based
//! line on which the offending construct started, and their rendering in the
//! `[line <n>] Error: <message>.` form.

use vstd::prelude::*;
use vstd::string::StrSliceExecFns;
use vstd::string::StringExecFns;

verus! {

/// The two recoverable lexical error kinds.
#[derive(Clone, Copy, PartialEq, Eq, Structural, Debug)]
pub enum DiagKind {
    /// End of input was reached while inside a string literal.
    UnterminatedString,
    /// A character matched no scanning rule.
    UnexpectedChar(char),
}

/// One reported lexical error: its kind and the 1-based line on which the
/// offending construct started.
#[derive(Clone, Copy, PartialEq, Eq, Structural, Debug)]
pub struct Diagnostic {
    pub line: usize,
    pub kind: DiagKind,
}

/// The mathematical shape of a diagnostic.
pub struct SpecDiag {
    pub line: int,
    pub kind: DiagKind,
}

impl View for Diagnostic {
    type V = SpecDiag;

    open spec fn view(&self) -> SpecDiag {
        SpecDiag { line: self.line as int, kind: self.kind }
    }
}

/// The character for one decimal digit value.
pub open spec fn digit_char(d: nat) -> char {
    if d == 0 {
        '0'
    } else if d == 1 {
        '1'
    } else if d == 2 {
        '2'
    } else if d == 3 {
        '3'
    } else if d == 4 {
        '4'
    } else if d == 5 {
        '5'
    } else if d == 6 {
        '6'
    } else if d == 7 {
        '7'
    } else if d == 8 {
        '8'
    } else {
        '9'
    }
}

/// The decimal spelling of a natural number, most significant digit first,
/// with no leading zero except for zero itself.
pub open spec fn dec_digits(n: nat) -> Seq<char>
    decreases n,
{
    if n < 10 {
        seq![digit_char(n)]
    } else {
        dec_digits(n / 10) + seq![digit_char(n % 10)]
    }
}

/// The rendered diagnostic line, without a trailing newline:
/// `[line <n>] Error: Unterminated string.` or
/// `[line <n>] Error: Unexpected character: <c>.`
pub open spec fn message_text(d: SpecDiag) -> Seq<char> {
    match d.kind {
        DiagKind::UnterminatedString => "[line "@ + dec_digits(d.line as nat)
            + "] Error: Unterminated string."@,
        DiagKind::UnexpectedChar(c) => "[line "@ + dec_digits(d.line as nat)
            + "] Error: Unexpected character: "@ + seq![c] + "."@,
    }
}

/// The single-character string for one decimal digit value.
fn digit_str(d: usize) -> (r: &'static str)
    requires
        d < 10,
    ensures
        r@ == seq![digit_char(d as nat)],
{
    let r: &'static str = if d == 0 {
        "0"
    } else if d == 1 {
        "1"
    } else if d == 2 {
        "2"
    } else if d == 3 {
        "3"
    } else if d == 4 {
        "4"
    } else if d == 5 {
        "5"
    } else if d == 6 {
        "6"
    } else if d == 7 {
        "7"
    } else if d == 8 {
        "8"
    } else {
        "9"
    };
    proof {
        reveal_strlit("0");
        reveal_strlit("1");
        reveal_strlit("2");
        reveal_strlit("3");
        reveal_strlit("4");
        reveal_strlit("5");
        reveal_strlit("6");
        reveal_strlit("7");
        reveal_strlit("8");
        reveal_strlit("9");
        assert(r@ =~= seq![digit_char(d as nat)]);
    }
    r
}

/// The decimal spelling of `n`.
pub fn render_usize(n: usize) -> (r: String)
    ensures
        r@ == dec_digits(n as nat),
{
    let mut digits: Vec<usize> = Vec::new();
    digits.push(n % 10);
    let mut m = n / 10;
    while m > 0
        invariant
            digits@.len() > 0,
            forall|k: int| 0 <= k < digits@.len() ==> digits@[k] < 10,
            ({
                let rendered = Seq::new(
                    digits@.len(),
                    |j: int| digit_char(digits@[digits@.len() - 1 - j] as nat),
                );
                if m == 0 {
                    dec_digits(n as nat) == rendered
                } else {
                    dec_digits(n as nat) == dec_digits(m as nat) + rendered
                }
            }),
        decreases m,
    {
        let ghost old_digits = digits@;
        let ghost old_m = m;
        let d = m % 10;
        digits.push(d);
        m = m / 10;
        proof {
            let rendered_old = Seq::new(
                old_digits.len(),
                |j: int| digit_char(old_digits[old_digits.len() - 1 - j] as nat),
            );
            let rendered_new = Seq::new(
                digits@.len(),
                |j: int| digit_char(digits@[digits@.len() - 1 - j] as nat),
            );
            assert(rendered_new =~= seq![digit_char(d as nat)] + rendered_old);
        }
    }
    let mut r = String::new();
    let mut i: usize = digits.len();
    proof {
        assert(r@ =~= Seq::new(
            digits@.len(),
            |j: int| digit_char(digits@[digits@.len() - 1 - j] as nat),
        ).take(0));
    }
    while i > 0
        invariant
            i <= digits@.len(),
            forall|k: int| 0 <= k < digits@.len() ==> digits@[k] < 10,
            ({
                let rendered = Seq::new(
                    digits@.len(),
                    |j: int| digit_char(digits@[digits@.len() - 1 - j] as nat),
                );
                r@ == rendered.take(digits@.len() - i)
            }),
        decreases i,
    {
        i = i - 1;
        let d = digits[i];
        r.append(digit_str(d));
        proof {
            let rendered = Seq::new(
                digits@.len(),
                |j: int| digit_char(digits@[digits@.len() - 1 - j] as nat),
            );
            assert(rendered.take(digits@.len() - i) =~= rendered.take(digits@.len() - (i + 1))
                + seq![digit_char(digits@[i as int] as nat)]);
        }
    }
    proof {
        let rendered = Seq::new(
            digits@.len(),
            |j: int| digit_char(digits@[digits@.len() - 1 - j] as nat),
        );
        assert(rendered.take(digits@.len() - 0) =~= rendered);
    }
    r
}

impl Diagnostic {
    /// The rendered diagnostic line, without a trailing newline.
    pub fn message(&self) -> (r: String)
        ensures
            r@ == message_text(self@),
    {
        let mut r = String::from_str("[line ");
        let num = render_usize(self.line);
        r.append(num.as_str());
        match self.kind {
            DiagKind::UnterminatedString => {
                r.append("] Error: Unterminated string.");
            },
            DiagKind::UnexpectedChar(c) => {
                r.append("] Error: Unexpected character: ");
                push_char(&mut r, c);
                r.append(".");
            },
        }
        r
    }
}

/// Relies on std's `String::push`: appends exactly the one given character.
#[verifier::external_body]
fn push_char(s: &mut String, c: char)
    ensures
        final(s)@ == old(s)@ + seq![c],
{
    s.push(c)
}

} // verus!
