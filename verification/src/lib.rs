//! A lexical scanner for a small C-like scripting language.
//!
//! The scanner turns raw source text into a stream of classified tokens:
//! structural punctuation, one- and two-character operators, string and
//! number literals, identifiers and reserved words, followed by a single
//! end-of-input marker. Invalid input never stops a run: an unterminated
//! string or an unexpected character is recorded as a diagnostic with the
//! line it started on, and scanning resumes with the next character.

pub mod chars;
pub mod diag;
pub mod laws;
pub mod model;
pub mod scanner;
pub mod token;
