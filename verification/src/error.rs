//! The failures that end a compilation, grouped by the stage that raises them.

use vstd::prelude::*;
use crate::text::{decimal, push_decimal};
use crate::token::TokenType;

verus! {

/// What the lexer found wrong.
#[derive(Clone, Copy, PartialEq, Eq, Debug, Structural)]
pub enum LexErrorKind {
    /// A character that starts no token.
    UnknownCharacter,
    /// A carriage return, line break, tab, backslash or percent sign inside a
    /// string literal, or the end of the source before the closing quote.
    IllegalStringCharacter,
    /// A decimal point with no digit after it.
    IllegalDecimal,
    /// An exclamation mark with no equals sign after it.
    MalformedNotEqual,
}

/// A failure of the lexer.
///
/// `pos` is the index in the source at which the lexer stopped. For
/// `UnknownCharacter` and `IllegalStringCharacter`, `ch` is the character at
/// `pos`; for `IllegalDecimal` and `MalformedNotEqual`, `pos` is the index of
/// the decimal point or exclamation mark and `ch` is the character after it.
/// Where that character lies past the end of the source, `ch` is NUL.
#[derive(Clone, Copy, PartialEq, Eq, Debug, Structural)]
pub struct LexError {
    pub kind: LexErrorKind,
    pub ch: char,
    pub pos: usize,
}

/// What the parser was looking for when it met a token it could not use.
#[derive(Clone, Copy, PartialEq, Eq, Debug, Structural)]
pub enum Expected {
    /// A token of one given kind.
    Token(TokenType),
    /// The keyword that opens a statement.
    Statement,
    /// A number or an identifier.
    Operand,
}

/// A failure of the grammar.
#[derive(Clone, Copy, PartialEq, Eq, Debug, Structural)]
pub enum ParseError {
    /// The current token, of the second kind, is not what was expected.
    UnexpectedToken(Expected, TokenType),
    /// A comparison lacks its operator; the token found in its place has the
    /// given kind.
    ExpectedComparisonOperator(TokenType),
}

/// A failure of the rules on names.
#[derive(PartialEq, Eq, Debug)]
pub enum SemanticError {
    /// A label is declared a second time.
    DuplicateLabel(String),
    /// A variable is read before any `LET` or `INPUT` has declared it.
    UndeclaredVariable(String),
    /// A `GOTO` names a label that the program declares nowhere.
    UndeclaredLabel(String),
}

/// `SemanticError` in contracts: the name as a sequence of characters.
pub enum SemanticErrorView {
    DuplicateLabel(Seq<char>),
    UndeclaredVariable(Seq<char>),
    UndeclaredLabel(Seq<char>),
}

impl View for SemanticError {
    type V = SemanticErrorView;

    open spec fn view(&self) -> SemanticErrorView {
        match self {
            SemanticError::DuplicateLabel(name) => SemanticErrorView::DuplicateLabel(name@),
            SemanticError::UndeclaredVariable(name) => SemanticErrorView::UndeclaredVariable(name@),
            SemanticError::UndeclaredLabel(name) => SemanticErrorView::UndeclaredLabel(name@),
        }
    }
}

impl Clone for SemanticError {
    fn clone(&self) -> (r: Self)
        ensures
            r@ == self@,
    {
        match self {
            SemanticError::DuplicateLabel(name) => SemanticError::DuplicateLabel(name.clone()),
            SemanticError::UndeclaredVariable(name) => SemanticError::UndeclaredVariable(
                name.clone(),
            ),
            SemanticError::UndeclaredLabel(name) => SemanticError::UndeclaredLabel(name.clone()),
        }
    }
}

/// Any failure of a compilation.
#[derive(PartialEq, Eq, Debug)]
pub enum CompileError {
    Lex(LexError),
    Parse(ParseError),
    Semantic(SemanticError),
}

impl Clone for CompileError {
    fn clone(&self) -> (r: Self)
        ensures
            r@ == self@,
    {
        match self {
            CompileError::Lex(error) => CompileError::Lex(*error),
            CompileError::Parse(error) => CompileError::Parse(*error),
            CompileError::Semantic(error) => CompileError::Semantic(error.clone()),
        }
    }
}

/// `CompileError` in contracts.
pub enum ErrorView {
    Lex(LexError),
    Parse(ParseError),
    Semantic(SemanticErrorView),
}

impl View for CompileError {
    type V = ErrorView;

    open spec fn view(&self) -> ErrorView {
        match self {
            CompileError::Lex(e) => ErrorView::Lex(*e),
            CompileError::Parse(e) => ErrorView::Parse(*e),
            CompileError::Semantic(e) => ErrorView::Semantic(e@),
        }
    }
}

impl LexError {
    /// The diagnostic for this failure: that the lexer raised it, what it
    /// found, and at which index of the source.
    pub open spec fn message(self) -> Seq<char> {
        match self.kind {
            LexErrorKind::UnknownCharacter => "[LEXER] ERROR: Unknown token "@.push(self.ch)
                + " at "@ + decimal(self.pos as nat),
            LexErrorKind::IllegalStringCharacter => "[LEXER] ERROR: Illegal character in string at "@
                + decimal(self.pos as nat),
            LexErrorKind::IllegalDecimal => "[LEXER] ERROR: Illegal character in decimal at "@
                + decimal(self.pos as nat),
            LexErrorKind::MalformedNotEqual => "[LEXER] ERROR: Expected !=, got !"@.push(self.ch)
                + " at "@ + decimal(self.pos as nat),
        }
    }

    /// The diagnostic as a string.
    pub fn to_string(&self) -> (r: String)
        ensures
            r@ == self.message(),
    {
        match self.kind {
            LexErrorKind::UnknownCharacter => {
                let mut out = "[LEXER] ERROR: Unknown token ".to_owned();
                out.push(self.ch);
                out.append(" at ");
                push_decimal(&mut out, self.pos);
                out
            },
            LexErrorKind::IllegalStringCharacter => {
                let mut out = "[LEXER] ERROR: Illegal character in string at ".to_owned();
                push_decimal(&mut out, self.pos);
                out
            },
            LexErrorKind::IllegalDecimal => {
                let mut out = "[LEXER] ERROR: Illegal character in decimal at ".to_owned();
                push_decimal(&mut out, self.pos);
                out
            },
            LexErrorKind::MalformedNotEqual => {
                let mut out = "[LEXER] ERROR: Expected !=, got !".to_owned();
                out.push(self.ch);
                out.append(" at ");
                push_decimal(&mut out, self.pos);
                out
            },
        }
    }
}

impl ParseError {
    /// The diagnostic for this failure: that the parser raised it, and the
    /// kinds of token that it was about.
    pub open spec fn message(self) -> Seq<char> {
        match self {
            ParseError::UnexpectedToken(Expected::Token(expected), actual) =>
                "[PARSER] ERROR: Expecting token of type "@ + expected.name() + ", got "@
                    + actual.name(),
            ParseError::UnexpectedToken(Expected::Statement, actual) =>
                "[PARSER] ERROR: Token not valid at the start of a statement: "@ + actual.name(),
            ParseError::UnexpectedToken(Expected::Operand, actual) =>
                "[PARSER] ERROR: Unexpected token at "@ + actual.name(),
            ParseError::ExpectedComparisonOperator(actual) =>
                "[PARSER] ERROR: Expected comparison operator at: "@ + actual.name(),
        }
    }

    /// The diagnostic as a string.
    pub fn to_string(&self) -> (r: String)
        ensures
            r@ == self.message(),
    {
        match self {
            ParseError::UnexpectedToken(Expected::Token(expected), actual) => {
                let mut out = "[PARSER] ERROR: Expecting token of type ".to_owned();
                out.append(expected.to_string().as_str());
                out.append(", got ");
                out.append(actual.to_string().as_str());
                out
            },
            ParseError::UnexpectedToken(Expected::Statement, actual) => {
                let mut out = "[PARSER] ERROR: Token not valid at the start of a statement: ".to_owned();
                out.append(actual.to_string().as_str());
                out
            },
            ParseError::UnexpectedToken(Expected::Operand, actual) => {
                let mut out = "[PARSER] ERROR: Unexpected token at ".to_owned();
                out.append(actual.to_string().as_str());
                out
            },
            ParseError::ExpectedComparisonOperator(actual) => {
                let mut out = "[PARSER] ERROR: Expected comparison operator at: ".to_owned();
                out.append(actual.to_string().as_str());
                out
            },
        }
    }
}

impl SemanticErrorView {
    /// The diagnostic for this failure: that the parser raised it, and the
    /// name that it was about.
    pub open spec fn message(self) -> Seq<char> {
        match self {
            SemanticErrorView::DuplicateLabel(name) => "[PARSER] ERROR: Label "@ + name
                + " already exists"@,
            SemanticErrorView::UndeclaredVariable(name) =>
                "[PARSER] ERROR: Referencing variable "@ + name + " before assignment"@,
            SemanticErrorView::UndeclaredLabel(name) =>
                "[PARSER] ERROR: GOTO to undeclared label "@ + name,
        }
    }
}

impl SemanticError {
    /// The diagnostic as a string.
    pub fn to_string(&self) -> (r: String)
        ensures
            r@ == self@.message(),
    {
        match self {
            SemanticError::DuplicateLabel(name) => {
                let mut out = "[PARSER] ERROR: Label ".to_owned();
                out.append(name.as_str());
                out.append(" already exists");
                out
            },
            SemanticError::UndeclaredVariable(name) => {
                let mut out = "[PARSER] ERROR: Referencing variable ".to_owned();
                out.append(name.as_str());
                out.append(" before assignment");
                out
            },
            SemanticError::UndeclaredLabel(name) => {
                let mut out = "[PARSER] ERROR: GOTO to undeclared label ".to_owned();
                out.append(name.as_str());
                out
            },
        }
    }
}

impl ErrorView {
    /// The one diagnostic that the failure is reported with.
    pub open spec fn message(self) -> Seq<char> {
        match self {
            ErrorView::Lex(error) => error.message(),
            ErrorView::Parse(error) => error.message(),
            ErrorView::Semantic(error) => error.message(),
        }
    }
}

impl CompileError {
    /// The one diagnostic that the failure is reported with.
    pub fn to_string(&self) -> (r: String)
        ensures
            r@ == self@.message(),
    {
        match self {
            CompileError::Lex(error) => error.to_string(),
            CompileError::Parse(error) => error.to_string(),
            CompileError::Semantic(error) => error.to_string(),
        }
    }
}

} // verus!
