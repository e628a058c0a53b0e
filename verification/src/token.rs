//! Token kinds and tokens.

use vstd::prelude::*;
use crate::text::{same_chars, same_text, string_of};

verus! {

/// The syntactic category of a token.
#[derive(Clone, Copy, PartialEq, Eq, Debug, Structural)]
pub enum TokenType {
    EOF,
    NEWLINE,
    NUMBER,
    IDENT,
    STRING,
    // Keywords
    LABEL,
    GOTO,
    PRINT,
    INPUT,
    LET,
    IF,
    THEN,
    ENDIF,
    WHILE,
    REPEAT,
    ENDWHILE,
    // Operators
    EQ,
    PLUS,
    MINUS,
    ASTERISK,
    SLASH,
    EQEQ,
    NOTEQ,
    LT,
    LTEQ,
    GT,
    GTEQ,
}

impl TokenType {
    /// Whether the kind is one of the seven comparison operators.
    pub open spec fn is_comparison(self) -> bool {
        self == TokenType::EQ || self == TokenType::EQEQ || self == TokenType::LT || self
            == TokenType::LTEQ || self == TokenType::GT || self == TokenType::GTEQ || self
            == TokenType::NOTEQ
    }

    /// Whether the kind is one of the eleven keywords.
    pub open spec fn is_keyword(self) -> bool {
        self == TokenType::LABEL || self == TokenType::GOTO || self == TokenType::PRINT || self
            == TokenType::INPUT || self == TokenType::LET || self == TokenType::IF || self
            == TokenType::THEN || self == TokenType::ENDIF || self == TokenType::WHILE || self
            == TokenType::REPEAT || self == TokenType::ENDWHILE
    }

    /// The kind's name as it is written in diagnostics.
    pub open spec fn name(self) -> Seq<char> {
        match self {
            TokenType::EOF => "EOF"@,
            TokenType::NEWLINE => "NEWLINE"@,
            TokenType::NUMBER => "NUMBER"@,
            TokenType::IDENT => "IDENT"@,
            TokenType::STRING => "STRING"@,
            TokenType::LABEL => "LABEL"@,
            TokenType::GOTO => "GOTO"@,
            TokenType::PRINT => "PRINT"@,
            TokenType::INPUT => "INPUT"@,
            TokenType::LET => "LET"@,
            TokenType::IF => "IF"@,
            TokenType::THEN => "THEN"@,
            TokenType::ENDIF => "ENDIF"@,
            TokenType::WHILE => "WHILE"@,
            TokenType::REPEAT => "REPEAT"@,
            TokenType::ENDWHILE => "ENDWHILE"@,
            TokenType::EQ => "EQ"@,
            TokenType::PLUS => "PLUS"@,
            TokenType::MINUS => "MINUS"@,
            TokenType::ASTERISK => "ASTERISK"@,
            TokenType::SLASH => "SLASH"@,
            TokenType::EQEQ => "EQEQ"@,
            TokenType::NOTEQ => "NOTEQ"@,
            TokenType::LT => "LT"@,
            TokenType::LTEQ => "LTEQ"@,
            TokenType::GT => "GT"@,
            TokenType::GTEQ => "GTEQ"@,
        }
    }

    /// The kind's name as text.
    pub fn to_string(&self) -> (r: String)
        ensures
            r@ == self.name(),
    {
        let word: &str = match self {
            TokenType::EOF => "EOF",
            TokenType::NEWLINE => "NEWLINE",
            TokenType::NUMBER => "NUMBER",
            TokenType::IDENT => "IDENT",
            TokenType::STRING => "STRING",
            TokenType::LABEL => "LABEL",
            TokenType::GOTO => "GOTO",
            TokenType::PRINT => "PRINT",
            TokenType::INPUT => "INPUT",
            TokenType::LET => "LET",
            TokenType::IF => "IF",
            TokenType::THEN => "THEN",
            TokenType::ENDIF => "ENDIF",
            TokenType::WHILE => "WHILE",
            TokenType::REPEAT => "REPEAT",
            TokenType::ENDWHILE => "ENDWHILE",
            TokenType::EQ => "EQ",
            TokenType::PLUS => "PLUS",
            TokenType::MINUS => "MINUS",
            TokenType::ASTERISK => "ASTERISK",
            TokenType::SLASH => "SLASH",
            TokenType::EQEQ => "EQEQ",
            TokenType::NOTEQ => "NOTEQ",
            TokenType::LT => "LT",
            TokenType::LTEQ => "LTEQ",
            TokenType::GT => "GT",
            TokenType::GTEQ => "GTEQ",
        };
        word.to_owned()
    }
}

/// The keyword that `text` spells, if it spells one. Keywords are written in
/// capitals only.
pub open spec fn keyword_of(text: Seq<char>) -> Option<TokenType> {
    if text == "LABEL"@ {
        Some(TokenType::LABEL)
    } else if text == "GOTO"@ {
        Some(TokenType::GOTO)
    } else if text == "PRINT"@ {
        Some(TokenType::PRINT)
    } else if text == "INPUT"@ {
        Some(TokenType::INPUT)
    } else if text == "LET"@ {
        Some(TokenType::LET)
    } else if text == "IF"@ {
        Some(TokenType::IF)
    } else if text == "THEN"@ {
        Some(TokenType::THEN)
    } else if text == "ENDIF"@ {
        Some(TokenType::ENDIF)
    } else if text == "WHILE"@ {
        Some(TokenType::WHILE)
    } else if text == "REPEAT"@ {
        Some(TokenType::REPEAT)
    } else if text == "ENDWHILE"@ {
        Some(TokenType::ENDWHILE)
    } else {
        None
    }
}

/// What a token is in contracts: its text as a sequence, and its kind.
pub struct TokenView {
    pub text: Seq<char>,
    pub kind: TokenType,
}

/// A piece of source text together with its kind.
#[derive(Debug)]
pub struct Token {
    pub text: Vec<char>,
    pub kind: TokenType,
}

impl View for Token {
    type V = TokenView;

    open spec fn view(&self) -> TokenView {
        TokenView { text: self.text@, kind: self.kind }
    }
}

impl Clone for Token {
    fn clone(&self) -> (r: Self)
        ensures
            r@ == self@,
    {
        let text = self.text.clone();
        assert(text@ =~= self.text@);
        Token { text, kind: self.kind }
    }
}

impl PartialEq for Token {
    /// Tokens are equal when their texts and their kinds are.
    fn eq(&self, other: &Self) -> (r: bool) {
        self.kind == other.kind && same_chars(&self.text, &other.text)
    }
}

impl Eq for Token {

}

impl vstd::std_specs::cmp::PartialEqSpecImpl for Token {
    open spec fn obeys_eq_spec() -> bool {
        true
    }

    open spec fn eq_spec(&self, other: &Self) -> bool {
        self@ == other@
    }
}

impl Token {
    /// The token with the given text and kind.
    pub fn new(text: Vec<char>, kind: TokenType) -> (r: Self)
        ensures
            r.text == text,
            r.kind == kind,
    {
        Token { text, kind }
    }

    /// Looks `text_token` up among the keywords.
    pub fn check_keyword(text_token: &Vec<char>) -> (r: Option<TokenType>)
        ensures
            r == keyword_of(text_token@),
    {
        if same_text(text_token, "LABEL") {
            Some(TokenType::LABEL)
        } else if same_text(text_token, "GOTO") {
            Some(TokenType::GOTO)
        } else if same_text(text_token, "PRINT") {
            Some(TokenType::PRINT)
        } else if same_text(text_token, "INPUT") {
            Some(TokenType::INPUT)
        } else if same_text(text_token, "LET") {
            Some(TokenType::LET)
        } else if same_text(text_token, "IF") {
            Some(TokenType::IF)
        } else if same_text(text_token, "THEN") {
            Some(TokenType::THEN)
        } else if same_text(text_token, "ENDIF") {
            Some(TokenType::ENDIF)
        } else if same_text(text_token, "WHILE") {
            Some(TokenType::WHILE)
        } else if same_text(text_token, "REPEAT") {
            Some(TokenType::REPEAT)
        } else if same_text(text_token, "ENDWHILE") {
            Some(TokenType::ENDWHILE)
        } else {
            None
        }
    }

    /// The token's text as a string.
    pub fn get_text(&self) -> (r: String)
        ensures
            r@ == self.text@,
    {
        string_of(&self.text)
    }

    /// The token as it is written in diagnostics: the kind's name, a space,
    /// and the text.
    pub fn to_string(&self) -> (r: String)
        ensures
            r@ == self.kind.name() + " "@ + self.text@,
    {
        let mut out = self.kind.to_string();
        out.append(" ");
        let text = self.get_text();
        out.append(text.as_str());
        out
    }
}

} // verus!
