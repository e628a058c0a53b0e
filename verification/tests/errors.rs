use teeny_tiny::error::{
    CompileError, Expected, LexError, LexErrorKind, ParseError, SemanticError,
};
use teeny_tiny::lex::TokenType;

#[test]
fn lexer_diagnostics() {
    let at = |kind, ch, pos| CompileError::Lex(LexError { kind, ch, pos }).to_string();
    assert_eq!(
        at(LexErrorKind::UnknownCharacter, '?', 12),
        "[LEXER] ERROR: Unknown token ? at 12"
    );
    assert_eq!(
        at(LexErrorKind::IllegalStringCharacter, '%', 0),
        "[LEXER] ERROR: Illegal character in string at 0"
    );
    assert_eq!(
        at(LexErrorKind::IllegalDecimal, 'x', 305),
        "[LEXER] ERROR: Illegal character in decimal at 305"
    );
    assert_eq!(
        at(LexErrorKind::MalformedNotEqual, '>', 9),
        "[LEXER] ERROR: Expected !=, got !> at 9"
    );
    assert_eq!(
        LexError { kind: LexErrorKind::UnknownCharacter, ch: '$', pos: 1 }.to_string(),
        "[LEXER] ERROR: Unknown token $ at 1"
    );
}

#[test]
fn parser_diagnostics() {
    let of = |error: ParseError| CompileError::Parse(error).to_string();
    assert_eq!(
        of(ParseError::UnexpectedToken(Expected::Token(TokenType::THEN), TokenType::NEWLINE)),
        "[PARSER] ERROR: Expecting token of type THEN, got NEWLINE"
    );
    assert_eq!(
        of(ParseError::UnexpectedToken(Expected::Statement, TokenType::NUMBER)),
        "[PARSER] ERROR: Token not valid at the start of a statement: NUMBER"
    );
    assert_eq!(
        of(ParseError::UnexpectedToken(Expected::Operand, TokenType::EOF)),
        "[PARSER] ERROR: Unexpected token at EOF"
    );
    assert_eq!(
        of(ParseError::ExpectedComparisonOperator(TokenType::REPEAT)),
        "[PARSER] ERROR: Expected comparison operator at: REPEAT"
    );
    assert_eq!(
        ParseError::ExpectedComparisonOperator(TokenType::IDENT).to_string(),
        "[PARSER] ERROR: Expected comparison operator at: IDENT"
    );
}

#[test]
fn name_diagnostics() {
    let of = |error: SemanticError| CompileError::Semantic(error).to_string();
    assert_eq!(
        of(SemanticError::DuplicateLabel("top".to_string())),
        "[PARSER] ERROR: Label top already exists"
    );
    assert_eq!(
        of(SemanticError::UndeclaredVariable("x1".to_string())),
        "[PARSER] ERROR: Referencing variable x1 before assignment"
    );
    assert_eq!(
        of(SemanticError::UndeclaredLabel("skip".to_string())),
        "[PARSER] ERROR: GOTO to undeclared label skip"
    );
    assert_eq!(
        SemanticError::UndeclaredLabel("".to_string()).to_string(),
        "[PARSER] ERROR: GOTO to undeclared label "
    );
}

#[test]
fn errors_are_equal_by_value() {
    let error = CompileError::Semantic(SemanticError::DuplicateLabel("a".to_string()));
    assert_eq!(error.clone(), error);
    assert_ne!(error, CompileError::Semantic(SemanticError::UndeclaredLabel("a".to_string())));
    assert_ne!(error, CompileError::Semantic(SemanticError::DuplicateLabel("b".to_string())));
}
