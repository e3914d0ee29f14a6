//! Character classes the scanner dispatches on, and the maximal-run spec
//! functions that describe how far each sub-scanner consumes, with their
//! characterisation lemmas.

use vstd::prelude::*;

verus! {

/// An ASCII decimal digit.
pub open spec fn is_digit(c: char) -> bool {
    '0' <= c && c <= '9'
}

/// An ASCII letter or underscore: what may begin an identifier.
pub open spec fn is_alpha(c: char) -> bool {
    ('a' <= c && c <= 'z') || ('A' <= c && c <= 'Z') || c == '_'
}

/// What may continue an identifier: a letter, digit or underscore.
pub open spec fn is_alnum(c: char) -> bool {
    is_alpha(c) || is_digit(c)
}

/// The whitespace the scanner skips silently: every character with the
/// Unicode `White_Space` property except the newline, which is handled
/// separately because it advances the line counter.
pub open spec fn is_blank(c: char) -> bool {
    ||| c == ' ' || c == '\t' || c == '\r' || c == '\u{000b}' || c == '\u{000c}'
    ||| c == '\u{0085}' || c == '\u{00a0}' || c == '\u{1680}'
    ||| ('\u{2000}' <= c && c <= '\u{200a}')
    ||| c == '\u{2028}' || c == '\u{2029}' || c == '\u{202f}' || c == '\u{205f}'
    ||| c == '\u{3000}'
}

/// Executable form of `is_digit`.
pub fn digit(c: char) -> (r: bool)
    ensures
        r == is_digit(c),
{
    '0' <= c && c <= '9'
}

/// Executable form of `is_alpha`.
pub fn alpha(c: char) -> (r: bool)
    ensures
        r == is_alpha(c),
{
    ('a' <= c && c <= 'z') || ('A' <= c && c <= 'Z') || c == '_'
}

/// Executable form of `is_alnum`.
pub fn alnum(c: char) -> (r: bool)
    ensures
        r == is_alnum(c),
{
    alpha(c) || digit(c)
}

/// Executable form of `is_blank`.
pub fn blank(c: char) -> (r: bool)
    ensures
        r == is_blank(c),
{
    c == ' ' || c == '\t' || c == '\r' || c == '\u{000b}' || c == '\u{000c}' || c == '\u{0085}'
        || c == '\u{00a0}' || c == '\u{1680}' || ('\u{2000}' <= c && c <= '\u{200a}')
        || c == '\u{2028}' || c == '\u{2029}' || c == '\u{202f}' || c == '\u{205f}'
        || c == '\u{3000}'
}

/// The end of the maximal digit run that starts at `j`.
pub open spec fn digit_run_end(s: Seq<char>, j: int) -> int
    decreases s.len() - j,
{
    if j < 0 || j >= s.len() {
        j
    } else if is_digit(s[j]) {
        digit_run_end(s, j + 1)
    } else {
        j
    }
}

/// The end of the maximal identifier-character run that starts at `j`.
pub open spec fn alnum_run_end(s: Seq<char>, j: int) -> int
    decreases s.len() - j,
{
    if j < 0 || j >= s.len() {
        j
    } else if is_alnum(s[j]) {
        alnum_run_end(s, j + 1)
    } else {
        j
    }
}

/// The position of the first newline at or after `j`, or the end of the
/// source if there is none: how far a line comment reaches.
pub open spec fn comment_run_end(s: Seq<char>, j: int) -> int
    decreases s.len() - j,
{
    if j < 0 || j >= s.len() {
        j
    } else if s[j] != '\n' {
        comment_run_end(s, j + 1)
    } else {
        j
    }
}

/// The position of the first double quote at or after `j`, or the end of the
/// source if there is none: where a string body ends.
pub open spec fn string_run_end(s: Seq<char>, j: int) -> int
    decreases s.len() - j,
{
    if j < 0 || j >= s.len() {
        j
    } else if s[j] != '"' {
        string_run_end(s, j + 1)
    } else {
        j
    }
}

/// What `digit_run_end` returns: a position within bounds, digits throughout
/// the run, and no digit just past it.
pub proof fn lemma_digit_run_end(s: Seq<char>, j: int)
    requires
        0 <= j <= s.len(),
    ensures
        ({
            let e = digit_run_end(s, j);
            &&& j <= e <= s.len()
            &&& forall|k: int| j <= k < e ==> is_digit(s[k])
            &&& e < s.len() ==> !is_digit(s[e])
        }),
    decreases s.len() - j,
{
    if j < s.len() && is_digit(s[j]) {
        lemma_digit_run_end(s, j + 1);
    }
}

/// The converse: a position with those properties is `digit_run_end`.
pub proof fn lemma_digit_run_end_is(s: Seq<char>, j: int, e: int)
    requires
        0 <= j <= e <= s.len(),
        forall|k: int| j <= k < e ==> is_digit(s[k]),
        e == s.len() || !is_digit(s[e]),
    ensures
        digit_run_end(s, j) == e,
    decreases e - j,
{
    if j < e {
        assert(is_digit(s[j]));
        lemma_digit_run_end_is(s, j + 1, e);
    }
}

/// What `alnum_run_end` returns.
pub proof fn lemma_alnum_run_end(s: Seq<char>, j: int)
    requires
        0 <= j <= s.len(),
    ensures
        ({
            let e = alnum_run_end(s, j);
            &&& j <= e <= s.len()
            &&& forall|k: int| j <= k < e ==> is_alnum(s[k])
            &&& e < s.len() ==> !is_alnum(s[e])
        }),
    decreases s.len() - j,
{
    if j < s.len() && is_alnum(s[j]) {
        lemma_alnum_run_end(s, j + 1);
    }
}

/// The converse: a position with those properties is `alnum_run_end`.
pub proof fn lemma_alnum_run_end_is(s: Seq<char>, j: int, e: int)
    requires
        0 <= j <= e <= s.len(),
        forall|k: int| j <= k < e ==> is_alnum(s[k]),
        e == s.len() || !is_alnum(s[e]),
    ensures
        alnum_run_end(s, j) == e,
    decreases e - j,
{
    if j < e {
        assert(is_alnum(s[j]));
        lemma_alnum_run_end_is(s, j + 1, e);
    }
}

/// What `comment_run_end` returns.
pub proof fn lemma_comment_run_end(s: Seq<char>, j: int)
    requires
        0 <= j <= s.len(),
    ensures
        ({
            let e = comment_run_end(s, j);
            &&& j <= e <= s.len()
            &&& forall|k: int| j <= k < e ==> s[k] != '\n'
            &&& e < s.len() ==> s[e] == '\n'
        }),
    decreases s.len() - j,
{
    if j < s.len() && s[j] != '\n' {
        lemma_comment_run_end(s, j + 1);
    }
}

/// The converse: a position with those properties is `comment_run_end`.
pub proof fn lemma_comment_run_end_is(s: Seq<char>, j: int, e: int)
    requires
        0 <= j <= e <= s.len(),
        forall|k: int| j <= k < e ==> s[k] != '\n',
        e == s.len() || s[e] == '\n',
    ensures
        comment_run_end(s, j) == e,
    decreases e - j,
{
    if j < e {
        assert(s[j] != '\n');
        lemma_comment_run_end_is(s, j + 1, e);
    }
}

/// What `string_run_end` returns.
pub proof fn lemma_string_run_end(s: Seq<char>, j: int)
    requires
        0 <= j <= s.len(),
    ensures
        ({
            let e = string_run_end(s, j);
            &&& j <= e <= s.len()
            &&& forall|k: int| j <= k < e ==> s[k] != '"'
            &&& e < s.len() ==> s[e] == '"'
        }),
    decreases s.len() - j,
{
    if j < s.len() && s[j] != '"' {
        lemma_string_run_end(s, j + 1);
    }
}

/// The converse: a position with those properties is `string_run_end`.
pub proof fn lemma_string_run_end_is(s: Seq<char>, j: int, e: int)
    requires
        0 <= j <= e <= s.len(),
        forall|k: int| j <= k < e ==> s[k] != '"',
        e == s.len() || s[e] == '"',
    ensures
        string_run_end(s, j) == e,
    decreases e - j,
{
    if j < e {
        assert(s[j] != '"');
        lemma_string_run_end_is(s, j + 1, e);
    }
}

/// The number of newline characters in `s[from..to)`.
pub open spec fn newlines_in(s: Seq<char>, from: int, to: int) -> int
    decreases to - from,
{
    if from >= to {
        0
    } else {
        (if s[from] == '\n' {
            1int
        } else {
            0int
        }) + newlines_in(s, from + 1, to)
    }
}

/// A newline count is between zero and the width of its range.
pub proof fn lemma_newlines_in_bounds(s: Seq<char>, from: int, to: int)
    requires
        from <= to,
    ensures
        0 <= newlines_in(s, from, to) <= to - from,
    decreases to - from,
{
    if from < to {
        lemma_newlines_in_bounds(s, from + 1, to);
    }
}

/// Extending a range by one character on the right adds one to the count
/// exactly when that character is a newline.
pub proof fn lemma_newlines_in_snoc(s: Seq<char>, from: int, to: int)
    requires
        from <= to,
    ensures
        newlines_in(s, from, to + 1) == newlines_in(s, from, to) + (if s[to] == '\n' {
            1int
        } else {
            0int
        }),
    decreases to - from,
{
    if from < to {
        lemma_newlines_in_snoc(s, from + 1, to);
    } else {
        assert(newlines_in(s, to + 1, to + 1) == 0);
        assert(newlines_in(s, to, to) == 0);
    }
}

} // verus!
