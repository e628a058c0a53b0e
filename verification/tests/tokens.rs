use teeny_tiny::lex::{Token, TokenType};
use teeny_tiny::text::{
    chars_of_bytes, is_digit, is_letter, push_decimal, same_chars, same_text, slice_of, string_of,
};

#[test]
fn check_keyword_knows_the_eleven() {
    let word = |w: &str| Token::check_keyword(&w.chars().collect());
    assert_eq!(word("LABEL"), Some(TokenType::LABEL));
    assert_eq!(word("GOTO"), Some(TokenType::GOTO));
    assert_eq!(word("PRINT"), Some(TokenType::PRINT));
    assert_eq!(word("INPUT"), Some(TokenType::INPUT));
    assert_eq!(word("LET"), Some(TokenType::LET));
    assert_eq!(word("IF"), Some(TokenType::IF));
    assert_eq!(word("THEN"), Some(TokenType::THEN));
    assert_eq!(word("ENDIF"), Some(TokenType::ENDIF));
    assert_eq!(word("WHILE"), Some(TokenType::WHILE));
    assert_eq!(word("REPEAT"), Some(TokenType::REPEAT));
    assert_eq!(word("ENDWHILE"), Some(TokenType::ENDWHILE));
    assert_eq!(word("let"), None);
    assert_eq!(word("LETS"), None);
    assert_eq!(word("LE"), None);
    assert_eq!(word(""), None);
    assert_eq!(word("EOF"), None);
}

#[test]
fn get_text_spells_the_characters() {
    let token = Token::new(vec!['a', '\u{e9}', '1'], TokenType::IDENT);
    assert_eq!(token.get_text(), "a\u{e9}1");
    assert_eq!(Token::new(vec![], TokenType::EOF).get_text(), "");
}

#[test]
fn tokens_and_kinds_are_written_by_name() {
    assert_eq!(TokenType::EOF.to_string(), "EOF");
    assert_eq!(TokenType::NEWLINE.to_string(), "NEWLINE");
    assert_eq!(TokenType::ENDWHILE.to_string(), "ENDWHILE");
    assert_eq!(TokenType::GTEQ.to_string(), "GTEQ");
    assert_eq!(TokenType::ASTERISK.to_string(), "ASTERISK");
    let token = Token::new(vec!['4', '2'], TokenType::NUMBER);
    assert_eq!(token.to_string(), "NUMBER 42");
}

#[test]
fn tokens_are_equal_by_value() {
    let a = Token::new(vec!['x'], TokenType::IDENT);
    assert_eq!(a, a.clone());
    assert_eq!(a, Token::new(vec!['x'], TokenType::IDENT));
    assert_ne!(a, Token::new(vec!['x'], TokenType::STRING));
    assert_ne!(a, Token::new(vec!['y'], TokenType::IDENT));
    assert_ne!(a, Token::new(vec!['x', 'x'], TokenType::IDENT));
}

#[test]
fn character_classes() {
    assert!(is_digit('0') && is_digit('9') && !is_digit('a') && !is_digit('/') && !is_digit(':'));
    assert!(is_letter('a') && is_letter('Z') && !is_letter('1') && !is_letter('\u{e9}'));
    assert!(!is_letter('@') && !is_letter('[') && !is_letter('`') && !is_letter('{'));
}

#[test]
fn text_helpers() {
    let abc: Vec<char> = "abc".chars().collect();
    assert_eq!(string_of(&abc), "abc");
    assert_eq!(slice_of(&abc, 1, 3), vec!['b', 'c']);
    assert_eq!(slice_of(&abc, 2, 2), Vec::<char>::new());
    assert!(same_text(&abc, "abc"));
    assert!(!same_text(&abc, "abd"));
    assert!(!same_text(&abc, "ab"));
    assert!(same_chars(&abc, &vec!['a', 'b', 'c']));
    assert!(!same_chars(&abc, &vec!['a', 'b']));
    assert!(!same_chars(&abc, &vec!['a', 'b', 'x']));
}

#[test]
fn bytes_are_read_as_one_character_each() {
    assert_eq!(chars_of_bytes(&vec![]), Vec::<char>::new());
    assert_eq!(chars_of_bytes(&vec![b'L', b'E', b'T', b'\n']), vec!['L', 'E', 'T', '\n']);
    assert_eq!(chars_of_bytes(&vec![0, 127, 128, 233, 255]), vec![
        '\0', '\u{7f}', '\u{80}', '\u{e9}', '\u{ff}'
    ]);
}

#[test]
fn decimal_numerals() {
    let numeral = |n: usize| {
        let mut out = String::from("n=");
        push_decimal(&mut out, n);
        out
    };
    assert_eq!(numeral(0), "n=0");
    assert_eq!(numeral(7), "n=7");
    assert_eq!(numeral(10), "n=10");
    assert_eq!(numeral(409), "n=409");
    assert_eq!(numeral(1234567890), "n=1234567890");
    assert_eq!(numeral(usize::MAX), format!("n={}", usize::MAX));
}
