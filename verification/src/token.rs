//! The token model: the closed set of token variants the scanner produces,
//! together with the spec-level description of each token's printed type name,
//! its lexeme, and its literal text, and the reserved-word table.

use vstd::prelude::*;
use vstd::string::StrSliceExecFns;
use vstd::string::StringExecFns;

verus! {

/// The classification of the tokens that carry no text of their own:
/// structural punctuation, one- and two-character operators, the reserved
/// words, and the terminal end-of-input marker.
#[derive(Clone, Copy, PartialEq, Eq, Structural, Debug)]
pub enum Kind {
    Eof,
    LeftParen,
    RightParen,
    LeftBrace,
    RightBrace,
    Semicolon,
    Star,
    Dot,
    Comma,
    Plus,
    Minus,
    Equal,
    EqualEqual,
    Bang,
    BangEqual,
    Less,
    LessEqual,
    Greater,
    GreaterEqual,
    Slash,
    And,
    Class,
    Else,
    False,
    For,
    Fun,
    If,
    Nil,
    Or,
    Print,
    Return,
    Super,
    This,
    True,
    Var,
    While,
}

/// A classified unit of source text. The three text-carrying variants hold
/// the decoded identifier spelling, the string body without its quotes, and
/// the verbatim numeric lexeme; every other token is fixed spelling and is
/// described by its `Kind` alone.
#[derive(Clone, Debug)]
pub enum Token {
    Simple(Kind),
    Identifier(String),
    StringLit(String),
    Number(String),
}

/// The mathematical shape of a token: as `Token`, with each carried text
/// replaced by its character sequence.
pub enum SpecToken {
    Simple(Kind),
    Identifier(Seq<char>),
    StringLit(Seq<char>),
    Number(Seq<char>),
}

impl View for Token {
    type V = SpecToken;

    open spec fn view(&self) -> SpecToken {
        match self {
            Token::Simple(k) => SpecToken::Simple(*k),
            Token::Identifier(s) => SpecToken::Identifier(s@),
            Token::StringLit(s) => SpecToken::StringLit(s@),
            Token::Number(s) => SpecToken::Number(s@),
        }
    }
}

/// The uppercase printed name of a fixed-spelling token.
pub open spec fn kind_type_text(k: Kind) -> Seq<char> {
    match k {
        Kind::Eof => "EOF"@,
        Kind::LeftParen => "LEFT_PAREN"@,
        Kind::RightParen => "RIGHT_PAREN"@,
        Kind::LeftBrace => "LEFT_BRACE"@,
        Kind::RightBrace => "RIGHT_BRACE"@,
        Kind::Semicolon => "SEMICOLON"@,
        Kind::Star => "STAR"@,
        Kind::Dot => "DOT"@,
        Kind::Comma => "COMMA"@,
        Kind::Plus => "PLUS"@,
        Kind::Minus => "MINUS"@,
        Kind::Equal => "EQUAL"@,
        Kind::EqualEqual => "EQUAL_EQUAL"@,
        Kind::Bang => "BANG"@,
        Kind::BangEqual => "BANG_EQUAL"@,
        Kind::Less => "LESS"@,
        Kind::LessEqual => "LESS_EQUAL"@,
        Kind::Greater => "GREATER"@,
        Kind::GreaterEqual => "GREATER_EQUAL"@,
        Kind::Slash => "SLASH"@,
        Kind::And => "AND"@,
        Kind::Class => "CLASS"@,
        Kind::Else => "ELSE"@,
        Kind::False => "FALSE"@,
        Kind::For => "FOR"@,
        Kind::Fun => "FUN"@,
        Kind::If => "IF"@,
        Kind::Nil => "NIL"@,
        Kind::Or => "OR"@,
        Kind::Print => "PRINT"@,
        Kind::Return => "RETURN"@,
        Kind::Super => "SUPER"@,
        Kind::This => "THIS"@,
        Kind::True => "TRUE"@,
        Kind::Var => "VAR"@,
        Kind::While => "WHILE"@,
    }
}

/// The fixed spelling of a token without carried text; empty for `Eof`.
pub open spec fn kind_lexeme(k: Kind) -> Seq<char> {
    match k {
        Kind::Eof => Seq::<char>::empty(),
        Kind::LeftParen => "("@,
        Kind::RightParen => ")"@,
        Kind::LeftBrace => "{"@,
        Kind::RightBrace => "}"@,
        Kind::Semicolon => ";"@,
        Kind::Star => "*"@,
        Kind::Dot => "."@,
        Kind::Comma => ","@,
        Kind::Plus => "+"@,
        Kind::Minus => "-"@,
        Kind::Equal => "="@,
        Kind::EqualEqual => "=="@,
        Kind::Bang => "!"@,
        Kind::BangEqual => "!="@,
        Kind::Less => "<"@,
        Kind::LessEqual => "<="@,
        Kind::Greater => ">"@,
        Kind::GreaterEqual => ">="@,
        Kind::Slash => "/"@,
        Kind::And => "and"@,
        Kind::Class => "class"@,
        Kind::Else => "else"@,
        Kind::False => "false"@,
        Kind::For => "for"@,
        Kind::Fun => "fun"@,
        Kind::If => "if"@,
        Kind::Nil => "nil"@,
        Kind::Or => "or"@,
        Kind::Print => "print"@,
        Kind::Return => "return"@,
        Kind::Super => "super"@,
        Kind::This => "this"@,
        Kind::True => "true"@,
        Kind::Var => "var"@,
        Kind::While => "while"@,
    }
}

/// The printed token type name: the variant's uppercase name.
pub open spec fn type_text(t: SpecToken) -> Seq<char> {
    match t {
        SpecToken::Simple(k) => kind_type_text(k),
        SpecToken::Identifier(_) => "IDENTIFIER"@,
        SpecToken::StringLit(_) => "STRING"@,
        SpecToken::Number(_) => "NUMBER"@,
    }
}

/// The verbatim source text of a token: quote-wrapped for a string literal,
/// the spelling itself for identifiers and numbers, the fixed spelling
/// otherwise.
pub open spec fn lexeme_of(t: SpecToken) -> Seq<char> {
    match t {
        SpecToken::Simple(k) => kind_lexeme(k),
        SpecToken::Identifier(s) => s,
        SpecToken::StringLit(s) => seq!['"'] + s + seq!['"'],
        SpecToken::Number(s) => s,
    }
}

/// The literal column of a token's printed form, as far as it is text: the
/// unwrapped body for a string literal, the word `null` for every token
/// without a literal. A number token's literal is the double-precision value
/// of its lexeme, which is no text; it is rendered by the caller and stands
/// here as `None`.
pub open spec fn literal_of(t: SpecToken) -> Option<Seq<char>> {
    match t {
        SpecToken::StringLit(s) => Some(s),
        SpecToken::Number(_) => None,
        _ => Some("null"@),
    }
}

/// The reserved-word table: the kind a spelling is reserved for, or `None`
/// for an ordinary identifier. Lookup is exact and case-sensitive.
pub open spec fn keyword_for(w: Seq<char>) -> Option<Kind> {
    if w == "and"@ {
        Some(Kind::And)
    } else if w == "class"@ {
        Some(Kind::Class)
    } else if w == "else"@ {
        Some(Kind::Else)
    } else if w == "false"@ {
        Some(Kind::False)
    } else if w == "for"@ {
        Some(Kind::For)
    } else if w == "fun"@ {
        Some(Kind::Fun)
    } else if w == "if"@ {
        Some(Kind::If)
    } else if w == "nil"@ {
        Some(Kind::Nil)
    } else if w == "or"@ {
        Some(Kind::Or)
    } else if w == "print"@ {
        Some(Kind::Print)
    } else if w == "return"@ {
        Some(Kind::Return)
    } else if w == "super"@ {
        Some(Kind::Super)
    } else if w == "this"@ {
        Some(Kind::This)
    } else if w == "true"@ {
        Some(Kind::True)
    } else if w == "var"@ {
        Some(Kind::Var)
    } else if w == "while"@ {
        Some(Kind::While)
    } else {
        None
    }
}

/// Character-by-character string comparison; equality of the two views.
pub fn str_eq(a: &str, b: &str) -> (r: bool)
    ensures
        r == (a@ == b@),
{
    let alen = a.unicode_len();
    let blen = b.unicode_len();
    if alen != blen {
        return false;
    }
    let mut i: usize = 0;
    while i < alen
        invariant
            i <= alen,
            alen == a@.len(),
            blen == b@.len(),
            alen == blen,
            forall|k: int| 0 <= k < i ==> a@[k] == b@[k],
        decreases alen - i,
    {
        if a.get_char(i) != b.get_char(i) {
            return false;
        }
        i += 1;
    }
    proof {
        assert(a@ =~= b@);
    }
    true
}

/// Exact-match lookup in the reserved-word table.
pub fn keyword_kind(w: &str) -> (r: Option<Kind>)
    ensures
        r == keyword_for(w@),
{
    if str_eq(w, "and") {
        Some(Kind::And)
    } else if str_eq(w, "class") {
        Some(Kind::Class)
    } else if str_eq(w, "else") {
        Some(Kind::Else)
    } else if str_eq(w, "false") {
        Some(Kind::False)
    } else if str_eq(w, "for") {
        Some(Kind::For)
    } else if str_eq(w, "fun") {
        Some(Kind::Fun)
    } else if str_eq(w, "if") {
        Some(Kind::If)
    } else if str_eq(w, "nil") {
        Some(Kind::Nil)
    } else if str_eq(w, "or") {
        Some(Kind::Or)
    } else if str_eq(w, "print") {
        Some(Kind::Print)
    } else if str_eq(w, "return") {
        Some(Kind::Return)
    } else if str_eq(w, "super") {
        Some(Kind::Super)
    } else if str_eq(w, "this") {
        Some(Kind::This)
    } else if str_eq(w, "true") {
        Some(Kind::True)
    } else if str_eq(w, "var") {
        Some(Kind::Var)
    } else if str_eq(w, "while") {
        Some(Kind::While)
    } else {
        None
    }
}

impl Token {
    /// The uppercase printed name of this token's variant.
    pub fn token_type(&self) -> (r: &'static str)
        ensures
            r@ == type_text(self@),
    {
        match self {
            Token::Simple(k) => match k {
                Kind::Eof => "EOF",
                Kind::LeftParen => "LEFT_PAREN",
                Kind::RightParen => "RIGHT_PAREN",
                Kind::LeftBrace => "LEFT_BRACE",
                Kind::RightBrace => "RIGHT_BRACE",
                Kind::Semicolon => "SEMICOLON",
                Kind::Star => "STAR",
                Kind::Dot => "DOT",
                Kind::Comma => "COMMA",
                Kind::Plus => "PLUS",
                Kind::Minus => "MINUS",
                Kind::Equal => "EQUAL",
                Kind::EqualEqual => "EQUAL_EQUAL",
                Kind::Bang => "BANG",
                Kind::BangEqual => "BANG_EQUAL",
                Kind::Less => "LESS",
                Kind::LessEqual => "LESS_EQUAL",
                Kind::Greater => "GREATER",
                Kind::GreaterEqual => "GREATER_EQUAL",
                Kind::Slash => "SLASH",
                Kind::And => "AND",
                Kind::Class => "CLASS",
                Kind::Else => "ELSE",
                Kind::False => "FALSE",
                Kind::For => "FOR",
                Kind::Fun => "FUN",
                Kind::If => "IF",
                Kind::Nil => "NIL",
                Kind::Or => "OR",
                Kind::Print => "PRINT",
                Kind::Return => "RETURN",
                Kind::Super => "SUPER",
                Kind::This => "THIS",
                Kind::True => "TRUE",
                Kind::Var => "VAR",
                Kind::While => "WHILE",
            },
            Token::Identifier(_) => "IDENTIFIER",
            Token::StringLit(_) => "STRING",
            Token::Number(_) => "NUMBER",
        }
    }

    /// The verbatim source text of this token.
    pub fn lexeme(&self) -> (r: String)
        ensures
            r@ == lexeme_of(self@),
    {
        match self {
            Token::Simple(k) => match k {
                Kind::Eof => String::new(),
                Kind::LeftParen => String::from_str("("),
                Kind::RightParen => String::from_str(")"),
                Kind::LeftBrace => String::from_str("{"),
                Kind::RightBrace => String::from_str("}"),
                Kind::Semicolon => String::from_str(";"),
                Kind::Star => String::from_str("*"),
                Kind::Dot => String::from_str("."),
                Kind::Comma => String::from_str(","),
                Kind::Plus => String::from_str("+"),
                Kind::Minus => String::from_str("-"),
                Kind::Equal => String::from_str("="),
                Kind::EqualEqual => String::from_str("=="),
                Kind::Bang => String::from_str("!"),
                Kind::BangEqual => String::from_str("!="),
                Kind::Less => String::from_str("<"),
                Kind::LessEqual => String::from_str("<="),
                Kind::Greater => String::from_str(">"),
                Kind::GreaterEqual => String::from_str(">="),
                Kind::Slash => String::from_str("/"),
                Kind::And => String::from_str("and"),
                Kind::Class => String::from_str("class"),
                Kind::Else => String::from_str("else"),
                Kind::False => String::from_str("false"),
                Kind::For => String::from_str("for"),
                Kind::Fun => String::from_str("fun"),
                Kind::If => String::from_str("if"),
                Kind::Nil => String::from_str("nil"),
                Kind::Or => String::from_str("or"),
                Kind::Print => String::from_str("print"),
                Kind::Return => String::from_str("return"),
                Kind::Super => String::from_str("super"),
                Kind::This => String::from_str("this"),
                Kind::True => String::from_str("true"),
                Kind::Var => String::from_str("var"),
                Kind::While => String::from_str("while"),
            },
            Token::Identifier(s) => s.clone(),
            Token::StringLit(s) => {
                let mut r = String::from_str("\"");
                r.append(s.as_str());
                r.append("\"");
                proof {
                    reveal_strlit("\"");
                    assert(("\"")@ =~= seq!['"']);
                    assert(r@ =~= seq!['"'] + s@ + seq!['"']);
                }
                r
            },
            Token::Number(s) => s.clone(),
        }
    }

    /// The text of this token's printed literal column, where it is text:
    /// `None` exactly for a number token, whose literal is the
    /// double-precision value of the lexeme and is rendered by the caller.
    pub fn literal(&self) -> (r: Option<String>)
        ensures
            match r {
                Some(s) => literal_of(self@) == Some(s@),
                None => literal_of(self@) is None,
            },
    {
        match self {
            Token::StringLit(s) => Some(s.clone()),
            Token::Number(_) => None,
            _ => Some(String::from_str("null")),
        }
    }
}

} // verus!
