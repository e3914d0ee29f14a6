use lox_scanner::diag::render_usize;
use lox_scanner::diag::DiagKind;
use lox_scanner::scanner::tokenize;
use lox_scanner::scanner::Lexer;
use lox_scanner::token::keyword_kind;
use lox_scanner::token::str_eq;
use lox_scanner::token::Kind;
use lox_scanner::token::Token;

fn scan(src: &str) -> (Vec<Token>, Vec<String>, bool) {
    let (toks, diags, err) = tokenize(src);
    let msgs = diags.iter().map(|d| d.message()).collect();
    (toks, msgs, err)
}

fn type_names(toks: &[Token]) -> Vec<String> {
    toks.iter().map(|t| t.token_type().to_string()).collect()
}

fn print_lines(toks: &[Token]) -> Vec<String> {
    toks.iter()
        .map(|t| {
            let literal = match t.literal() {
                Some(s) => s,
                None => match t {
                    Token::Number(lex) => format!("{:?}", lex.parse::<f64>().unwrap()),
                    _ => unreachable!(),
                },
            };
            format!("{} {} {}", t.token_type(), t.lexeme(), literal)
        })
        .collect()
}

#[test]
fn punctuation_end_to_end() {
    let (toks, msgs, err) = scan("(){};");
    assert_eq!(
        print_lines(&toks),
        vec![
            "LEFT_PAREN ( null",
            "RIGHT_PAREN ) null",
            "LEFT_BRACE { null",
            "RIGHT_BRACE } null",
            "SEMICOLON ; null",
            "EOF  null",
        ]
    );
    assert!(msgs.is_empty());
    assert!(!err);
}

#[test]
fn operators_end_to_end() {
    let (toks, _, err) = scan("== != <= >= =");
    assert_eq!(
        print_lines(&toks),
        vec![
            "EQUAL_EQUAL == null",
            "BANG_EQUAL != null",
            "LESS_EQUAL <= null",
            "GREATER_EQUAL >= null",
            "EQUAL = null",
            "EOF  null",
        ]
    );
    assert!(!err);
}

#[test]
fn unterminated_string_end_to_end() {
    let (toks, msgs, err) = scan("\"unterminated");
    assert!(err);
    assert_eq!(msgs, vec!["[line 1] Error: Unterminated string."]);
    assert_eq!(print_lines(&toks), vec!["EOF  null"]);
}

#[test]
fn stream_ends_with_eof_and_stops() {
    let mut lx = Lexer::new("var x = 1;");
    let mut last_was_eof = false;
    loop {
        match lx.next() {
            Some(t) => last_was_eof = matches!(t, Token::Simple(Kind::Eof)),
            None => break,
        }
    }
    assert!(last_was_eof);
    assert!(lx.finished());
    assert!(lx.next().is_none());
    assert!(lx.next().is_none());
}

#[test]
fn string_token_lexeme_and_literal() {
    let (toks, _, err) = scan("\"abc\"");
    assert!(!err);
    assert_eq!(toks[0].token_type(), "STRING");
    assert_eq!(toks[0].lexeme(), "\"abc\"");
    assert_eq!(toks[0].literal(), Some("abc".to_string()));
    assert_eq!(print_lines(&toks), vec!["STRING \"abc\" abc", "EOF  null"]);
}

#[test]
fn number_trailing_dot_split() {
    let (toks, _, err) = scan("123.");
    assert!(!err);
    assert_eq!(print_lines(&toks), vec!["NUMBER 123 123.0", "DOT . null", "EOF  null"]);
}

#[test]
fn number_with_fraction() {
    let (toks, _, _) = scan("123.45");
    assert_eq!(print_lines(&toks), vec!["NUMBER 123.45 123.45", "EOF  null"]);
}

#[test]
fn number_literal_is_double_parse_of_lexeme() {
    let (toks, _, _) = scan("200.00");
    assert_eq!(toks[0].token_type(), "NUMBER");
    assert_eq!(toks[0].lexeme(), "200.00");
    assert!(toks[0].literal().is_none());
    assert_eq!(format!("{:?}", toks[0].lexeme().parse::<f64>().unwrap()), "200.0");
}

#[test]
fn keyword_beats_identifier() {
    let (toks, _, _) = scan("var");
    assert_eq!(print_lines(&toks), vec!["VAR var null", "EOF  null"]);
    let (toks2, _, _) = scan("varx");
    assert_eq!(print_lines(&toks2), vec!["IDENTIFIER varx null", "EOF  null"]);
}

#[test]
fn all_keywords_resolve() {
    let words = [
        ("and", Kind::And),
        ("class", Kind::Class),
        ("else", Kind::Else),
        ("false", Kind::False),
        ("for", Kind::For),
        ("fun", Kind::Fun),
        ("if", Kind::If),
        ("nil", Kind::Nil),
        ("or", Kind::Or),
        ("print", Kind::Print),
        ("return", Kind::Return),
        ("super", Kind::Super),
        ("this", Kind::This),
        ("true", Kind::True),
        ("var", Kind::Var),
        ("while", Kind::While),
    ];
    for (w, k) in words {
        assert_eq!(keyword_kind(w), Some(k));
    }
    assert_eq!(keyword_kind("variable"), None);
    assert_eq!(keyword_kind("And"), None);
    assert_eq!(keyword_kind(""), None);
}

#[test]
fn comment_produces_no_token() {
    let (toks, msgs, err) = scan("// hello () \"no string\"\nfoo");
    assert_eq!(print_lines(&toks), vec!["IDENTIFIER foo null", "EOF  null"]);
    assert!(msgs.is_empty());
    assert!(!err);
}

#[test]
fn comment_keeps_line_numbering() {
    let (_, msgs, err) = scan("// comment\n@");
    assert!(err);
    assert_eq!(msgs, vec!["[line 2] Error: Unexpected character: @."]);
}

#[test]
fn comment_at_end_of_input() {
    let (toks, _, err) = scan("; // trailing");
    assert_eq!(print_lines(&toks), vec!["SEMICOLON ; null", "EOF  null"]);
    assert!(!err);
}

#[test]
fn unexpected_char_recovers() {
    let (toks, msgs, err) = scan("@(#\n%;");
    assert!(err);
    assert_eq!(
        msgs,
        vec![
            "[line 1] Error: Unexpected character: @.",
            "[line 1] Error: Unexpected character: #.",
            "[line 2] Error: Unexpected character: %.",
        ]
    );
    assert_eq!(
        type_names(&toks),
        vec!["LEFT_PAREN", "SEMICOLON", "EOF"]
    );
}

#[test]
fn error_flag_is_cumulative() {
    let mut lx = Lexer::new("@ ;");
    assert!(!lx.had_error());
    let t = lx.read_token();
    assert_eq!(t.token_type(), "SEMICOLON");
    assert!(lx.had_error());
    let t2 = lx.read_token();
    assert_eq!(t2.token_type(), "EOF");
    assert!(lx.had_error());
}

#[test]
fn newlines_advance_line_counter() {
    let mut lx = Lexer::new("a\nb\n\nc");
    assert_eq!(lx.current_line(), 1);
    while !lx.finished() {
        let _ = lx.read_token();
    }
    assert_eq!(lx.current_line(), 4);
}

#[test]
fn string_spans_lines() {
    let (toks, _, err) = scan("\"a\nb\"@");
    assert!(err);
    assert_eq!(toks[0].token_type(), "STRING");
    assert_eq!(toks[0].literal(), Some("a\nb".to_string()));
    let (_, msgs, _) = scan("\"a\nb\"@");
    assert_eq!(msgs, vec!["[line 2] Error: Unexpected character: @."]);
}

#[test]
fn unterminated_string_line_is_where_it_began() {
    let (_, msgs, err) = scan("x\ny\n\"open");
    assert!(err);
    assert_eq!(msgs, vec!["[line 3] Error: Unterminated string."]);
}

#[test]
fn empty_input_yields_only_eof() {
    let (toks, msgs, err) = scan("");
    assert_eq!(print_lines(&toks), vec!["EOF  null"]);
    assert!(msgs.is_empty());
    assert!(!err);
}

#[test]
fn slash_alone_is_a_token() {
    let (toks, _, _) = scan("1/2");
    assert_eq!(
        print_lines(&toks),
        vec!["NUMBER 1 1.0", "SLASH / null", "NUMBER 2 2.0", "EOF  null"]
    );
}

#[test]
fn read_number_backs_off_trailing_dot() {
    let mut lx = Lexer::new("123.x");
    let lex = lx.read_number();
    assert_eq!(lex, Some("123".to_string()));
    let mut lx2 = Lexer::new("12.5x");
    assert_eq!(lx2.read_number(), Some("12.5".to_string()));
    let mut lx3 = Lexer::new("1.2.3");
    assert_eq!(lx3.read_number(), Some("1.2".to_string()));
}

#[test]
fn read_ident_takes_maximal_run() {
    let mut lx = Lexer::new("abc_1+2");
    assert_eq!(lx.read_ident(), Some("abc_1".to_string()));
    let mut lx2 = Lexer::new("+x");
    assert_eq!(lx2.read_ident(), None);
}

#[test]
fn peek_does_not_advance_read_does() {
    let mut lx = Lexer::new("ab");
    assert_eq!(lx.peek_char(), Some('a'));
    assert_eq!(lx.peek_char(), Some('a'));
    assert_eq!(lx.read_char(), Some('a'));
    assert_eq!(lx.read_char(), Some('b'));
    assert_eq!(lx.read_char(), None);
    assert_eq!(lx.peek_char(), None);
}

#[test]
fn unicode_whitespace_is_skipped() {
    let (toks, msgs, err) = scan("\u{00a0};\u{2003}\u{3000}(");
    assert_eq!(type_names(&toks), vec!["SEMICOLON", "LEFT_PAREN", "EOF"]);
    assert!(msgs.is_empty());
    assert!(!err);
}

#[test]
fn unicode_line_separators_do_not_advance_line() {
    let (_, msgs, err) = scan("\u{2028}\u{2029}@");
    assert!(err);
    assert_eq!(msgs, vec!["[line 1] Error: Unexpected character: @."]);
}

#[test]
fn identifiers_with_digits_and_underscores() {
    let (toks, _, _) = scan("_x9 y_0");
    assert_eq!(
        print_lines(&toks),
        vec!["IDENTIFIER _x9 null", "IDENTIFIER y_0 null", "EOF  null"]
    );
}

#[test]
fn render_usize_decimal_spelling() {
    assert_eq!(render_usize(0), "0");
    assert_eq!(render_usize(7), "7");
    assert_eq!(render_usize(10), "10");
    assert_eq!(render_usize(90217), "90217");
}

#[test]
fn diagnostic_kinds_are_distinct() {
    let (_, diags, _) = tokenize("\"open");
    assert!(matches!(diags[0].kind, DiagKind::UnterminatedString));
    let (_, diags2, _) = tokenize("@");
    assert!(matches!(diags2[0].kind, DiagKind::UnexpectedChar('@')));
}

#[test]
fn str_eq_is_exact() {
    assert!(str_eq("abc", "abc"));
    assert!(!str_eq("abc", "abd"));
    assert!(!str_eq("abc", "ab"));
    assert!(str_eq("", ""));
}

#[test]
fn mixed_program_scans_in_order() {
    let (toks, msgs, err) = scan("var answer = 42.5; // the answer\nprint \"ok\" != nil");
    assert!(!err);
    assert!(msgs.is_empty());
    assert_eq!(
        print_lines(&toks),
        vec![
            "VAR var null",
            "IDENTIFIER answer null",
            "EQUAL = null",
            "NUMBER 42.5 42.5",
            "SEMICOLON ; null",
            "PRINT print null",
            "STRING \"ok\" ok",
            "BANG_EQUAL != null",
            "NIL nil null",
            "EOF  null",
        ]
    );
}
