use teeny_tiny::error::{LexError, LexErrorKind};
use teeny_tiny::lex::{Lexer, Token, TokenType};

fn chars(source: &str) -> Vec<char> {
    source.chars().collect()
}

fn get_tokens(source: &str) -> Vec<Token> {
    let mut lexer = Lexer::new(chars(source));
    let mut token = lexer.get_token().unwrap();
    let mut res: Vec<Token> = Vec::new();

    while !matches!(token.kind, TokenType::EOF) {
        res.push(token);
        token = lexer.get_token().unwrap();
    }

    res
}

fn kinds(source: &str) -> Vec<TokenType> {
    get_tokens(source).iter().map(|token| token.kind).collect()
}

fn first_error(source: &str) -> LexError {
    let mut lexer = Lexer::new(chars(source));
    loop {
        match lexer.get_token() {
            Ok(token) => assert_ne!(token.kind, TokenType::EOF, "no failure in {:?}", source),
            Err(error) => return error,
        }
    }
}

#[test]
fn test_lex() {
    let source = chars("LET a = 1\n");
    let mut lexer = Lexer::new(source.clone());
    let mut seen = vec![lexer.cur_char];

    while lexer.peek() != '\0' {
        lexer.next_char();
        seen.push(lexer.cur_char);
    }

    assert_eq!(seen, source);
}

#[test]
fn unit_tests_lexer_test_strings() {
    let res = get_tokens("\"Hello, world\" \"a string\" \"and another\"\n");
    assert!(matches!(res[0].kind, TokenType::STRING));
    assert!(matches!(res[1].kind, TokenType::STRING));
    assert!(matches!(res[2].kind, TokenType::STRING));
}

#[test]
fn integration_test_test_strings() {
    let res = get_tokens("\"first\"\"second\"\t\"third\" # remark\n\"fourth\"");
    assert!(matches!(res[0].kind, TokenType::STRING));
    assert!(matches!(res[1].kind, TokenType::STRING));
    assert!(matches!(res[2].kind, TokenType::STRING));
    assert_eq!(res[0].get_text(), "first");
    assert_eq!(res[1].get_text(), "second");
    assert_eq!(res[2].get_text(), "third");
    assert_eq!(res[3].kind, TokenType::NEWLINE);
    assert_eq!(res[4].get_text(), "fourth");
}

#[test]
fn test_operators() {
    let res = get_tokens("+ >= == = \n");
    assert!(matches!(res[0].kind, TokenType::PLUS));
    assert!(matches!(res[1].kind, TokenType::GTEQ));
    assert!(matches!(res[2].kind, TokenType::EQEQ));
    assert!(matches!(res[3].kind, TokenType::EQ));
}

#[test]
fn test_ident() {
    let res = get_tokens("GOTO label goto IF\n");
    assert!(matches!(res[0].kind, TokenType::GOTO));
    assert!(matches!(res[1].kind, TokenType::IDENT));
    assert!(matches!(res[2].kind, TokenType::IDENT));
    assert!(matches!(res[3].kind, TokenType::IF));
}

#[test]
fn arithmetic_operators_lex_one_by_one() {
    assert_eq!(
        kinds("+-*/"),
        vec![TokenType::PLUS, TokenType::MINUS, TokenType::ASTERISK, TokenType::SLASH]
    );
}

#[test]
fn comparison_operators_take_their_second_character() {
    assert_eq!(kinds(">="), vec![TokenType::GTEQ]);
    assert_eq!(kinds(">"), vec![TokenType::GT]);
    assert_eq!(kinds("=="), vec![TokenType::EQEQ]);
    assert_eq!(kinds("="), vec![TokenType::EQ]);
    assert_eq!(kinds("!="), vec![TokenType::NOTEQ]);
    assert_eq!(kinds("<="), vec![TokenType::LTEQ]);
    assert_eq!(kinds("<"), vec![TokenType::LT]);
    assert_eq!(kinds("<>"), vec![TokenType::LT, TokenType::GT]);
    assert_eq!(kinds("==="), vec![TokenType::EQEQ, TokenType::EQ]);
    let tokens = get_tokens(">=");
    assert_eq!(tokens[0].text, vec!['>', '=']);
}

#[test]
fn lone_exclamation_mark_fails() {
    assert_eq!(
        first_error("!"),
        LexError { kind: LexErrorKind::MalformedNotEqual, ch: '\0', pos: 0 }
    );
    assert_eq!(
        first_error("a !b"),
        LexError { kind: LexErrorKind::MalformedNotEqual, ch: 'b', pos: 2 }
    );
}

#[test]
fn numbers_with_and_without_fraction() {
    let tokens = get_tokens("3.14");
    assert_eq!(tokens.len(), 1);
    assert_eq!(tokens[0].kind, TokenType::NUMBER);
    assert_eq!(tokens[0].get_text(), "3.14");

    let tokens = get_tokens("42 7");
    assert_eq!(tokens[0], Token::new(vec!['4', '2'], TokenType::NUMBER));
    assert_eq!(tokens[1], Token::new(vec!['7'], TokenType::NUMBER));
}

#[test]
fn decimal_point_needs_a_digit() {
    assert_eq!(
        first_error("3."),
        LexError { kind: LexErrorKind::IllegalDecimal, ch: '\0', pos: 1 }
    );
    assert_eq!(
        first_error("12.x"),
        LexError { kind: LexErrorKind::IllegalDecimal, ch: 'x', pos: 2 }
    );
}

#[test]
fn second_decimal_point_is_no_part_of_the_number() {
    let mut lexer = Lexer::new(chars("1.2.3"));
    let number = lexer.get_token().unwrap();
    assert_eq!(number.get_text(), "1.2");
    assert_eq!(
        lexer.get_token(),
        Err(LexError { kind: LexErrorKind::UnknownCharacter, ch: '.', pos: 3 })
    );
}

#[test]
fn string_literal_keeps_its_text_without_quotes() {
    let tokens = get_tokens("\"Hello!\"");
    assert_eq!(tokens.len(), 1);
    assert_eq!(tokens[0].kind, TokenType::STRING);
    assert_eq!(tokens[0].get_text(), "Hello!");

    let tokens = get_tokens("\"\"");
    assert_eq!(tokens[0], Token::new(vec![], TokenType::STRING));
}

#[test]
fn string_literal_rejects_line_break_and_its_kin() {
    assert_eq!(
        first_error("\"ab\ncd\""),
        LexError { kind: LexErrorKind::IllegalStringCharacter, ch: '\n', pos: 3 }
    );
    assert_eq!(first_error("\"a\rb\"").ch, '\r');
    assert_eq!(first_error("\"a\tb\"").ch, '\t');
    assert_eq!(first_error("\"a\\b\"").ch, '\\');
    assert_eq!(first_error("\"a%b\"").ch, '%');
    assert_eq!(first_error("\"a%b\"").kind, LexErrorKind::IllegalStringCharacter);
}

#[test]
fn string_literal_without_closing_quote_fails() {
    assert_eq!(
        first_error("\"abc"),
        LexError { kind: LexErrorKind::IllegalStringCharacter, ch: '\0', pos: 4 }
    );
}

#[test]
fn keywords_are_matched_in_capitals_only() {
    assert_eq!(kinds("PRINT"), vec![TokenType::PRINT]);
    assert_eq!(kinds("print"), vec![TokenType::IDENT]);
    assert_eq!(kinds("Print"), vec![TokenType::IDENT]);
    assert_eq!(kinds("PRINTS"), vec![TokenType::IDENT]);
    assert_eq!(
        kinds("LABEL GOTO PRINT INPUT LET IF THEN ENDIF WHILE REPEAT ENDWHILE"),
        vec![
            TokenType::LABEL,
            TokenType::GOTO,
            TokenType::PRINT,
            TokenType::INPUT,
            TokenType::LET,
            TokenType::IF,
            TokenType::THEN,
            TokenType::ENDIF,
            TokenType::WHILE,
            TokenType::REPEAT,
            TokenType::ENDWHILE,
        ]
    );
}

#[test]
fn identifiers_run_over_letters_and_digits() {
    let tokens = get_tokens("ab1+c2d");
    assert_eq!(tokens[0], Token::new(chars("ab1"), TokenType::IDENT));
    assert_eq!(tokens[1].kind, TokenType::PLUS);
    assert_eq!(tokens[2], Token::new(chars("c2d"), TokenType::IDENT));

    let tokens = get_tokens("na\u{ef}ve x");
    assert_eq!(tokens[0], Token::new(chars("na\u{ef}ve"), TokenType::IDENT));
    assert_eq!(tokens[1], Token::new(chars("x"), TokenType::IDENT));
}

#[test]
fn token_text_is_the_stretch_of_source_it_was_read_from() {
    let source = "LET foo = 12.5 # remark\nPRINT \"hi\"\n";
    let all = chars(source);
    let mut lexer = Lexer::new(all.clone());
    let mut before = 0;
    loop {
        let token = lexer.get_token().unwrap();
        let after = lexer.cur_pos.unwrap();
        let consumed: Vec<char> = all[before..after].to_vec();
        let text: String = token.text.iter().collect();
        let consumed: String = consumed.into_iter().collect();
        assert!(consumed.contains(&text), "{:?} not in {:?}", text, consumed);
        if token.kind == TokenType::STRING {
            assert!(consumed.ends_with(&format!("\"{}\"", text)));
        } else {
            assert!(consumed.ends_with(&text));
        }
        if token.kind == TokenType::EOF {
            break;
        }
        before = after;
    }
}

#[test]
fn whitespace_and_remarks_yield_no_token() {
    assert_eq!(kinds("  \t\r  "), vec![]);
    assert_eq!(kinds("# only a remark"), vec![]);
    assert_eq!(kinds(" \t# remark\n+"), vec![TokenType::NEWLINE, TokenType::PLUS]);
    assert_eq!(kinds("+ # one\n# two\n-"), vec![
        TokenType::PLUS,
        TokenType::NEWLINE,
        TokenType::NEWLINE,
        TokenType::MINUS,
    ]);
}

#[test]
fn newline_token_holds_the_line_break() {
    let tokens = get_tokens("\n");
    assert_eq!(tokens, vec![Token::new(vec!['\n'], TokenType::NEWLINE)]);
}

#[test]
fn empty_source_yields_end_of_input_at_once() {
    let mut lexer = Lexer::new(Vec::new());
    assert_eq!(lexer.cur_char, '\0');
    assert_eq!(lexer.cur_pos, Some(0));
    assert_eq!(lexer.peek(), '\0');
    assert_eq!(lexer.get_token(), Ok(Token::new(vec![], TokenType::EOF)));
}

#[test]
fn end_of_input_is_returned_again_and_again() {
    let mut lexer = Lexer::new(chars("+  "));
    assert_eq!(lexer.get_token().unwrap().kind, TokenType::PLUS);
    for _ in 0..5 {
        assert_eq!(lexer.get_token(), Ok(Token::new(vec![], TokenType::EOF)));
        assert_eq!(lexer.cur_pos, Some(3));
        assert_eq!(lexer.cur_char, '\0');
    }
}

#[test]
fn unknown_characters_fail_with_their_position() {
    assert_eq!(
        first_error("a ? b"),
        LexError { kind: LexErrorKind::UnknownCharacter, ch: '?', pos: 2 }
    );
    assert_eq!(
        first_error("(1)"),
        LexError { kind: LexErrorKind::UnknownCharacter, ch: '(', pos: 0 }
    );
    assert_eq!(
        first_error("1\0"),
        LexError { kind: LexErrorKind::UnknownCharacter, ch: '\0', pos: 1 }
    );
}

#[test]
fn lexer_rests_where_the_error_says() {
    let mut lexer = Lexer::new(chars("  12.x"));
    let error = lexer.get_token().unwrap_err();
    assert_eq!(error.pos, 4);
    assert_eq!(lexer.cur_pos, Some(4));
    assert_eq!(lexer.cur_char, '.');
}

#[test]
fn peek_looks_one_ahead_and_changes_nothing() {
    let lexer = Lexer::new(chars("ab"));
    assert_eq!(lexer.cur_char, 'a');
    assert_eq!(lexer.peek(), 'b');
    assert_eq!(lexer.peek(), 'b');
    assert_eq!(lexer.cur_char, 'a');
    assert_eq!(lexer.cur_pos, Some(0));
}

#[test]
fn next_char_stops_past_the_end() {
    let mut lexer = Lexer::new(chars("ab"));
    lexer.next_char();
    assert_eq!((lexer.cur_char, lexer.cur_pos), ('b', Some(1)));
    assert_eq!(lexer.peek(), '\0');
    assert!(!lexer.at_end());
    lexer.next_char();
    assert_eq!((lexer.cur_char, lexer.cur_pos), ('\0', Some(2)));
    assert!(lexer.at_end());
    lexer.next_char();
    assert_eq!((lexer.cur_char, lexer.cur_pos), ('\0', Some(2)));
}

#[test]
fn skip_whitespace_and_skip_comment_stop_where_they_should() {
    let mut lexer = Lexer::new(chars(" \t\r# x\ny"));
    lexer.skip_comment();
    assert_eq!(lexer.cur_pos, Some(0));
    lexer.skip_whitespace();
    assert_eq!((lexer.cur_char, lexer.cur_pos), ('#', Some(3)));
    lexer.skip_comment();
    assert_eq!((lexer.cur_char, lexer.cur_pos), ('\n', Some(6)));
    lexer.skip_whitespace();
    assert_eq!(lexer.cur_pos, Some(6));
}
