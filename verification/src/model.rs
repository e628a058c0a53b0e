//! What a compilation is, step by step: the grammar, and the C text that each
//! of its productions writes, as functions on the parser's state.
//!
//! A state that has met a failure keeps it: every step leaves such a state
//! as it is, so the steps of a production can be written one after another.

use vstd::prelude::*;
use crate::error::{ErrorView, Expected, ParseError, SemanticErrorView};
use crate::lex::lex_at;
use crate::names::first_missing;
use crate::token::{TokenType, TokenView};

verus! {

/// The parser's state in contracts.
pub struct Model {
    /// The whole source.
    pub source: Seq<char>,
    /// Where the lexer stands in it.
    pub pos: int,
    /// The token under consideration.
    pub cur: TokenView,
    /// The token after it.
    pub peek: TokenView,
    /// The variables declared so far, in the order of their declaration.
    pub symbols: Seq<Seq<char>>,
    /// The labels declared so far.
    pub declared: Seq<Seq<char>>,
    /// The labels that some `GOTO` has named so far.
    pub gotoed: Seq<Seq<char>>,
    /// The header buffer.
    pub header: Seq<char>,
    /// The code buffer.
    pub code: Seq<char>,
    /// The failure that ended the compilation, if one has.
    pub error: Option<ErrorView>,
}

/// Whether the lexer, standing at `from`, yields `token` and moves to `to`.
pub open spec fn lexes_to(source: Seq<char>, from: int, token: TokenView, to: int) -> bool {
    lex_at(source, from) matches Ok(scan) && scan.token(source) == token && scan.next == to
}

/// Whether `cur` and `peek` are two tokens that the lexer yields one after
/// the other somewhere in `source`, the second of them ending at `pos`.
pub open spec fn follow_on(source: Seq<char>, cur: TokenView, peek: TokenView, pos: int) -> bool {
    exists|first: int, second: int|
        #![trigger lexes_to(source, first, cur, second)]
        lexes_to(source, first, cur, second) && lexes_to(source, second, peek, pos)
}

/// The state of a parser made over `source` with the lexer at `pos` and the
/// given buffers: the first two tokens from there fill the lookahead. The
/// result is the failure of the lexer if it cannot yield them.
pub open spec fn primed(source: Seq<char>, pos: int, header: Seq<char>, code: Seq<char>) -> Model {
    let blank = Model {
        source,
        pos,
        cur: TokenView { text: Seq::empty(), kind: TokenType::EOF },
        peek: TokenView { text: Seq::empty(), kind: TokenType::EOF },
        symbols: Seq::empty(),
        declared: Seq::empty(),
        gotoed: Seq::empty(),
        header,
        code,
        error: None,
    };
    match lex_at(source, pos) {
        Err(error) => Model { pos: error.pos as int, error: Some(ErrorView::Lex(error)), ..blank },
        Ok(first) => match lex_at(source, first.next) {
            Err(error) => Model {
                pos: error.pos as int,
                cur: first.token(source),
                error: Some(ErrorView::Lex(error)),
                ..blank
            },
            Ok(second) => Model {
                pos: second.next,
                cur: first.token(source),
                peek: second.token(source),
                ..blank
            },
        },
    }
}

impl Model {
    /// Whether the compilation has failed.
    pub open spec fn halted(self) -> bool {
        self.error is Some
    }

    /// The state with the failure taken out of it.
    pub open spec fn resume(self) -> Model {
        Model { error: None, ..self }
    }

    /// The compilation fails with `error`, unless it has failed before.
    pub open spec fn fail(self, error: ErrorView) -> Model {
        if self.halted() {
            self
        } else {
            Model { error: Some(error), ..self }
        }
    }

    /// A measure of the work that is left, by which the productions end. A
    /// compilation that has failed has none; any other has one unit, one for
    /// each character that the lexer has not passed, and one for each token
    /// of the lookahead that is not `EOF`.
    pub open spec fn measure(self) -> nat {
        if self.halted() {
            0
        } else {
            let unread: nat = if self.pos < self.source.len() {
                (self.source.len() - self.pos) as nat
            } else {
                0
            };
            let in_cur: nat = if self.cur.kind != TokenType::EOF {
                1
            } else {
                0
            };
            let in_peek: nat = if self.peek.kind != TokenType::EOF {
                1
            } else {
                0
            };
            1 + unread + in_cur + in_peek
        }
    }

    /// The lookahead holds two tokens that follow one another in the source,
    /// and the lexer stands just after the second.
    pub open spec fn in_step(self) -> bool {
        follow_on(self.source, self.cur, self.peek, self.pos)
    }

    /// Appends `text` to the code buffer.
    pub open spec fn emit(self, text: Seq<char>) -> Model {
        if self.halted() {
            self
        } else {
            Model { code: self.code + text, ..self }
        }
    }

    /// Appends `text` and a line break to the code buffer.
    pub open spec fn emit_line(self, text: Seq<char>) -> Model {
        self.emit(text).emit("\n"@)
    }

    /// Appends `text` to the header buffer.
    pub open spec fn head(self, text: Seq<char>) -> Model {
        if self.halted() {
            self
        } else {
            Model { header: self.header + text, ..self }
        }
    }

    /// Appends `text` and a line break to the header buffer.
    pub open spec fn head_line(self, text: Seq<char>) -> Model {
        self.head(text).head("\n"@)
    }

    /// Moves the lookahead on by one token: the second token becomes the
    /// current one and the lexer yields the new second. If the lexer fails,
    /// the lookahead stays as it is.
    pub open spec fn advance(self) -> Model {
        if self.halted() {
            self
        } else {
            match lex_at(self.source, self.pos) {
                Ok(scan) => Model {
                    pos: scan.next,
                    cur: self.peek,
                    peek: scan.token(self.source),
                    ..self
                },
                Err(error) => Model {
                    pos: error.pos as int,
                    error: Some(ErrorView::Lex(error)),
                    ..self
                },
            }
        }
    }

    /// Takes the current token if it is of the given kind, and fails if it
    /// is not.
    pub open spec fn expect(self, kind: TokenType) -> Model {
        if self.halted() {
            self
        } else if self.cur.kind == kind {
            self.advance()
        } else {
            self.fail(
                ErrorView::Parse(ParseError::UnexpectedToken(Expected::Token(kind), self.cur.kind)),
            )
        }
    }

    /// Takes line breaks for as long as the current token is one.
    pub open spec fn skip_newlines(self) -> Model
        decreases self.measure(),
        via Self::skip_newlines_decreases
    {
        if !self.halted() && self.cur.kind == TokenType::NEWLINE {
            self.advance().skip_newlines()
        } else {
            self
        }
    }

    #[via_fn]
    proof fn skip_newlines_decreases(self) {
        self.lemma_advance_measure();
    }

    /// `nl`: one line break, and any that follow it.
    pub open spec fn nl(self) -> Model {
        self.expect(TokenType::NEWLINE).skip_newlines()
    }

    /// `primary := NUMBER | IDENT`. The token's text goes to the code as it
    /// is; an identifier has to be a declared variable.
    pub open spec fn primary(self) -> Model {
        if self.halted() {
            self
        } else if self.cur.kind == TokenType::NUMBER {
            self.emit(self.cur.text).advance()
        } else if self.cur.kind == TokenType::IDENT {
            if self.symbols.contains(self.cur.text) {
                self.emit(self.cur.text).advance()
            } else {
                self.fail(
                    ErrorView::Semantic(SemanticErrorView::UndeclaredVariable(self.cur.text)),
                )
            }
        } else {
            self.fail(
                ErrorView::Parse(ParseError::UnexpectedToken(Expected::Operand, self.cur.kind)),
            )
        }
    }

    /// `unary := ["+" | "-"] primary`.
    pub open spec fn unary(self) -> Model {
        if !self.halted() && (self.cur.kind == TokenType::PLUS || self.cur.kind
            == TokenType::MINUS) {
            self.emit(self.cur.text).advance().primary()
        } else {
            self.primary()
        }
    }

    /// `{("*" | "/") unary}`.
    pub open spec fn term_rest(self) -> Model
        decreases self.measure(),
        via Self::term_rest_decreases
    {
        if !self.halted() && (self.cur.kind == TokenType::ASTERISK || self.cur.kind
            == TokenType::SLASH) {
            self.emit(self.cur.text).advance().unary().term_rest()
        } else {
            self
        }
    }

    #[via_fn]
    proof fn term_rest_decreases(self) {
        self.emit(self.cur.text).lemma_advance_measure();
        self.emit(self.cur.text).advance().lemma_unary_measure();
    }

    /// `term := unary {("*" | "/") unary}`.
    pub open spec fn term(self) -> Model {
        self.unary().term_rest()
    }

    /// `{("+" | "-") term}`.
    pub open spec fn expression_rest(self) -> Model
        decreases self.measure(),
        via Self::expression_rest_decreases
    {
        if !self.halted() && (self.cur.kind == TokenType::PLUS || self.cur.kind
            == TokenType::MINUS) {
            self.emit(self.cur.text).advance().term().expression_rest()
        } else {
            self
        }
    }

    #[via_fn]
    proof fn expression_rest_decreases(self) {
        self.emit(self.cur.text).lemma_advance_measure();
        self.emit(self.cur.text).advance().lemma_term_measure();
    }

    /// `expression := term {("+" | "-") term}`.
    pub open spec fn expression(self) -> Model {
        self.term().expression_rest()
    }

    /// `{comparator expression}`.
    pub open spec fn comparison_rest(self) -> Model
        decreases self.measure(),
        via Self::comparison_rest_decreases
    {
        if !self.halted() && self.cur.kind.is_comparison() {
            self.emit(self.cur.text).advance().expression().comparison_rest()
        } else {
            self
        }
    }

    #[via_fn]
    proof fn comparison_rest_decreases(self) {
        self.emit(self.cur.text).lemma_advance_measure();
        self.emit(self.cur.text).advance().lemma_expression_measure();
    }

    /// `comparison := expression comparator expression {comparator
    /// expression}`. Without the first comparator the compilation fails.
    pub open spec fn comparison(self) -> Model {
        let left = self.expression();
        if left.halted() {
            left
        } else if left.cur.kind.is_comparison() {
            left.emit(left.cur.text).advance().expression().comparison_rest()
        } else {
            left.fail(ErrorView::Parse(ParseError::ExpectedComparisonOperator(left.cur.kind)))
        }
    }

    /// Declares the variable `name` where it is new: it joins the symbols
    /// and the header gets its declaration.
    pub open spec fn declare(self, name: Seq<char>) -> Model {
        if self.halted() || self.symbols.contains(name) {
            self
        } else {
            Model { symbols: self.symbols.push(name), ..self }.head("float "@).head(name).head_line(
                ";"@,
            )
        }
    }

    /// Declares the label `name`, which fails if it is declared already.
    pub open spec fn declare_label(self, name: Seq<char>) -> Model {
        if self.halted() {
            self
        } else if self.declared.contains(name) {
            self.fail(ErrorView::Semantic(SemanticErrorView::DuplicateLabel(name)))
        } else {
            Model { declared: self.declared.push(name), ..self }
        }
    }

    /// Records that a `GOTO` names the label `name`.
    pub open spec fn note_goto(self, name: Seq<char>) -> Model {
        if self.halted() || self.gotoed.contains(name) {
            self
        } else {
            Model { gotoed: self.gotoed.push(name), ..self }
        }
    }

    /// `PRINT (STRING | expression)`.
    #[verifier::opaque]
    pub open spec fn print_statement(self) -> Model {
        let at = self.advance();
        if !at.halted() && at.cur.kind == TokenType::STRING {
            at.emit("printf(\""@).emit(at.cur.text).emit_line("\\n\");"@).advance()
        } else {
            at.emit("printf(\"%.2f\\n\", (float)("@).expression().emit_line("));"@)
        }
    }

    /// The head of `IF` and of `WHILE`: the keyword, the condition, the word
    /// that closes it, and the line's end. `open` is what the code gets
    /// before the condition.
    #[verifier::opaque]
    pub open spec fn block_head(self, open: Seq<char>, closer: TokenType) -> Model {
        self.advance().emit(open).comparison().expect(closer).nl().emit_line(") {"@)
    }

    /// `LABEL IDENT`.
    #[verifier::opaque]
    pub open spec fn label_statement(self) -> Model {
        let at = self.advance();
        at.declare_label(at.cur.text).emit(at.cur.text).emit_line(":"@).expect(TokenType::IDENT)
    }

    /// `GOTO IDENT`.
    #[verifier::opaque]
    pub open spec fn goto_statement(self) -> Model {
        let at = self.advance();
        at.note_goto(at.cur.text).emit("goto "@).emit(at.cur.text).emit_line(";"@).expect(
            TokenType::IDENT,
        )
    }

    /// `LET IDENT EQ expression`.
    #[verifier::opaque]
    pub open spec fn let_statement(self) -> Model {
        let at = self.advance();
        at.declare(at.cur.text).emit(at.cur.text).emit(" = "@).expect(TokenType::IDENT).expect(
            TokenType::EQ,
        ).expression().emit_line(";"@)
    }

    /// `INPUT IDENT`.
    #[verifier::opaque]
    pub open spec fn input_statement(self) -> Model {
        let at = self.advance();
        at.declare(at.cur.text).emit("if(0 == scanf(\"%f\", &"@).emit(at.cur.text).emit_line(
            ")) {"@,
        ).emit(at.cur.text).emit_line(" = 0;"@).emit_line("scanf(\"%*s\");"@).emit_line(
            "}"@,
        ).expect(TokenType::IDENT)
    }

    /// One statement, with the line's end after it.
    pub open spec fn statement(self) -> Model
        decreases self.measure(), 0nat,
        via Self::statement_decreases
    {
        if self.halted() {
            self
        } else if self.cur.kind == TokenType::PRINT {
            self.print_statement().nl()
        } else if self.cur.kind == TokenType::IF {
            self.block_head("if ("@, TokenType::THEN).block(TokenType::ENDIF).expect(
                TokenType::ENDIF,
            ).emit_line("}"@).nl()
        } else if self.cur.kind == TokenType::WHILE {
            self.block_head("while ("@, TokenType::REPEAT).block(TokenType::ENDWHILE).expect(
                TokenType::ENDWHILE,
            ).emit_line("}"@).nl()
        } else if self.cur.kind == TokenType::LABEL {
            self.label_statement().nl()
        } else if self.cur.kind == TokenType::GOTO {
            self.goto_statement().nl()
        } else if self.cur.kind == TokenType::LET {
            self.let_statement().nl()
        } else if self.cur.kind == TokenType::INPUT {
            self.input_statement().nl()
        } else {
            self.fail(
                ErrorView::Parse(ParseError::UnexpectedToken(Expected::Statement, self.cur.kind)),
            )
        }
    }

    /// Statements for as long as the current token is not of the kind
    /// `closer`. Every statement takes at least one token
    /// (`lemma_statement_progress`), so the test on the measure never stops
    /// the sequence early.
    pub open spec fn block(self, closer: TokenType) -> Model
        decreases self.measure(), 1nat,
    {
        if self.halted() || self.cur.kind == closer {
            self
        } else {
            let after = self.statement();
            if after.measure() < self.measure() {
                after.block(closer)
            } else {
                after
            }
        }
    }

    #[via_fn]
    proof fn statement_decreases(self) {
        if !self.halted() {
            self.lemma_block_head_measure("if ("@, TokenType::THEN);
            self.lemma_block_head_measure("while ("@, TokenType::REPEAT);
        }
    }

    /// The check at the end of a program: every label that a `GOTO` names
    /// has to be declared. The first that is not, in the order in which the
    /// labels were first named, is the failure.
    pub open spec fn check_labels(self) -> Model {
        if self.halted() {
            self
        } else {
            match first_missing(self.gotoed, self.declared) {
                Some(name) => self.fail(
                    ErrorView::Semantic(SemanticErrorView::UndeclaredLabel(name)),
                ),
                None => self,
            }
        }
    }

    /// `program := {NEWLINE} {statement}`, between the two lines that open
    /// the output and the two that close it, and with the check of the
    /// labels at its end.
    pub open spec fn program(self) -> Model {
        self.head_line("#include <stdio.h>"@).head_line("int main(void){"@).skip_newlines().block(
            TokenType::EOF,
        ).emit_line("return 0;"@).emit_line("}"@).check_labels()
    }

    /// Taking a token leaves no more to take than there was, and less if the
    /// current token was not `EOF`.
    pub proof fn lemma_advance_measure(self)
        ensures
            self.advance().measure() <= self.measure(),
            !self.halted() && self.cur.kind != TokenType::EOF ==> self.advance().measure()
                < self.measure(),
    {
        crate::lex::lemma_lex_progress(self.source, self.pos);
    }

    /// Taking a token of a given kind leaves no more to do than there was.
    pub proof fn lemma_expect_measure(self, kind: TokenType)
        ensures
            self.expect(kind).measure() <= self.measure(),
            !self.halted() && kind != TokenType::EOF ==> self.expect(kind).measure()
                < self.measure(),
    {
        self.lemma_advance_measure();
    }

    /// Taking line breaks leaves no more to do than there was.
    pub proof fn lemma_skip_newlines_measure(self)
        ensures
            self.skip_newlines().measure() <= self.measure(),
        decreases self.measure(),
    {
        if !self.halted() && self.cur.kind == TokenType::NEWLINE {
            self.lemma_advance_measure();
            self.advance().lemma_skip_newlines_measure();
        }
    }

    /// The end of a line leaves no more to do than there was.
    pub proof fn lemma_nl_measure(self)
        ensures
            self.nl().measure() <= self.measure(),
            !self.halted() ==> self.nl().measure() < self.measure(),
    {
        self.lemma_expect_measure(TokenType::NEWLINE);
        self.expect(TokenType::NEWLINE).lemma_skip_newlines_measure();
    }

    /// A primary leaves no more to do than there was.
    pub proof fn lemma_primary_measure(self)
        ensures
            self.primary().measure() <= self.measure(),
    {
        self.emit(self.cur.text).lemma_advance_measure();
    }

    /// A unary leaves no more to do than there was.
    pub proof fn lemma_unary_measure(self)
        ensures
            self.unary().measure() <= self.measure(),
    {
        self.emit(self.cur.text).lemma_advance_measure();
        self.emit(self.cur.text).advance().lemma_primary_measure();
        self.lemma_primary_measure();
    }

    /// The rest of a term leaves no more to do than there was.
    pub proof fn lemma_term_rest_measure(self)
        ensures
            self.term_rest().measure() <= self.measure(),
        decreases self.measure(),
    {
        if !self.halted() && (self.cur.kind == TokenType::ASTERISK || self.cur.kind
            == TokenType::SLASH) {
            let next = self.emit(self.cur.text).advance();
            self.emit(self.cur.text).lemma_advance_measure();
            next.lemma_unary_measure();
            next.unary().lemma_term_rest_measure();
        }
    }

    /// A term leaves no more to do than there was.
    pub proof fn lemma_term_measure(self)
        ensures
            self.term().measure() <= self.measure(),
    {
        self.lemma_unary_measure();
        self.unary().lemma_term_rest_measure();
    }

    /// The rest of an expression leaves no more to do than there was.
    pub proof fn lemma_expression_rest_measure(self)
        ensures
            self.expression_rest().measure() <= self.measure(),
        decreases self.measure(),
    {
        if !self.halted() && (self.cur.kind == TokenType::PLUS || self.cur.kind
            == TokenType::MINUS) {
            let next = self.emit(self.cur.text).advance();
            self.emit(self.cur.text).lemma_advance_measure();
            next.lemma_term_measure();
            next.term().lemma_expression_rest_measure();
        }
    }

    /// An expression leaves no more to do than there was.
    pub proof fn lemma_expression_measure(self)
        ensures
            self.expression().measure() <= self.measure(),
    {
        self.lemma_term_measure();
        self.term().lemma_expression_rest_measure();
    }

    /// The rest of a comparison leaves no more to do than there was.
    pub proof fn lemma_comparison_rest_measure(self)
        ensures
            self.comparison_rest().measure() <= self.measure(),
        decreases self.measure(),
    {
        if !self.halted() && self.cur.kind.is_comparison() {
            let next = self.emit(self.cur.text).advance();
            self.emit(self.cur.text).lemma_advance_measure();
            next.lemma_expression_measure();
            next.expression().lemma_comparison_rest_measure();
        }
    }

    /// A comparison leaves no more to do than there was.
    pub proof fn lemma_comparison_measure(self)
        ensures
            self.comparison().measure() <= self.measure(),
    {
        self.lemma_expression_measure();
        let left = self.expression();
        if !left.halted() && left.cur.kind.is_comparison() {
            let next = left.emit(left.cur.text).advance();
            left.emit(left.cur.text).lemma_advance_measure();
            next.lemma_expression_measure();
            next.expression().lemma_comparison_rest_measure();
        }
    }

    /// The head of a block leaves no more to do than there was.
    pub proof fn lemma_block_head_measure(self, open: Seq<char>, closer: TokenType)
        ensures
            self.block_head(open, closer).measure() <= self.measure(),
            !self.halted() && self.cur.kind != TokenType::EOF ==> self.block_head(
                open,
                closer,
            ).measure() < self.measure(),
    {
        reveal(Model::block_head);
        self.lemma_advance_measure();
        let a = self.advance().emit(open);
        a.lemma_comparison_measure();
        a.comparison().lemma_expect_measure(closer);
        a.comparison().expect(closer).lemma_nl_measure();
    }

    /// A `PRINT` statement leaves no more to do than is left once its keyword
    /// is taken.
    pub proof fn lemma_print_statement_measure(self)
        ensures
            self.print_statement().measure() <= self.advance().measure(),
    {
        reveal(Model::print_statement);
        let at = self.advance();
        at.emit("printf(\""@).emit(at.cur.text).emit_line("\\n\");"@).lemma_advance_measure();
        at.emit("printf(\"%.2f\\n\", (float)("@).lemma_expression_measure();
    }

    /// A `LABEL` statement leaves no more to do than is left once its keyword
    /// is taken.
    pub proof fn lemma_label_statement_measure(self)
        ensures
            self.label_statement().measure() <= self.advance().measure(),
    {
        reveal(Model::label_statement);
        let at = self.advance();
        at.declare_label(at.cur.text).emit(at.cur.text).emit_line(":"@).lemma_expect_measure(
            TokenType::IDENT,
        );
    }

    /// A `GOTO` statement leaves no more to do than is left once its keyword
    /// is taken.
    pub proof fn lemma_goto_statement_measure(self)
        ensures
            self.goto_statement().measure() <= self.advance().measure(),
    {
        reveal(Model::goto_statement);
        let at = self.advance();
        at.note_goto(at.cur.text).emit("goto "@).emit(at.cur.text).emit_line(
            ";"@,
        ).lemma_expect_measure(TokenType::IDENT);
    }

    /// A `LET` statement leaves no more to do than is left once its keyword
    /// is taken.
    pub proof fn lemma_let_statement_measure(self)
        ensures
            self.let_statement().measure() <= self.advance().measure(),
    {
        reveal(Model::let_statement);
        let at = self.advance();
        let named = at.declare(at.cur.text).emit(at.cur.text).emit(" = "@);
        named.lemma_expect_measure(TokenType::IDENT);
        named.expect(TokenType::IDENT).lemma_expect_measure(TokenType::EQ);
        named.expect(TokenType::IDENT).expect(TokenType::EQ).lemma_expression_measure();
    }

    /// An `INPUT` statement leaves no more to do than is left once its keyword
    /// is taken.
    pub proof fn lemma_input_statement_measure(self)
        ensures
            self.input_statement().measure() <= self.advance().measure(),
    {
        reveal(Model::input_statement);
        let at = self.advance();
        at.declare(at.cur.text).emit("if(0 == scanf(\"%f\", &"@).emit(at.cur.text).emit_line(
            ")) {"@,
        ).emit(at.cur.text).emit_line(" = 0;"@).emit_line("scanf(\"%*s\");"@).emit_line(
            "}"@,
        ).lemma_expect_measure(TokenType::IDENT);
    }

    /// A statement leaves less to do than there was: it takes at least one
    /// token, or fails.
    pub proof fn lemma_statement_progress(self)
        ensures
            self.statement().measure() <= self.measure(),
            !self.halted() ==> self.statement().measure() < self.measure(),
        decreases self.measure(), 0nat,
    {
        if self.halted() {
        } else if self.cur.kind == TokenType::PRINT {
            self.lemma_advance_measure();
            self.lemma_print_statement_measure();
            self.print_statement().lemma_nl_measure();
        } else if self.cur.kind == TokenType::IF {
            let head = self.block_head("if ("@, TokenType::THEN);
            self.lemma_block_head_measure("if ("@, TokenType::THEN);
            head.lemma_block_measure(TokenType::ENDIF);
            let body = head.block(TokenType::ENDIF);
            body.lemma_expect_measure(TokenType::ENDIF);
            body.expect(TokenType::ENDIF).emit_line("}"@).lemma_nl_measure();
        } else if self.cur.kind == TokenType::WHILE {
            let head = self.block_head("while ("@, TokenType::REPEAT);
            self.lemma_block_head_measure("while ("@, TokenType::REPEAT);
            head.lemma_block_measure(TokenType::ENDWHILE);
            let body = head.block(TokenType::ENDWHILE);
            body.lemma_expect_measure(TokenType::ENDWHILE);
            body.expect(TokenType::ENDWHILE).emit_line("}"@).lemma_nl_measure();
        } else if self.cur.kind == TokenType::LABEL {
            self.lemma_advance_measure();
            self.lemma_label_statement_measure();
            self.label_statement().lemma_nl_measure();
        } else if self.cur.kind == TokenType::GOTO {
            self.lemma_advance_measure();
            self.lemma_goto_statement_measure();
            self.goto_statement().lemma_nl_measure();
        } else if self.cur.kind == TokenType::LET {
            self.lemma_advance_measure();
            self.lemma_let_statement_measure();
            self.let_statement().lemma_nl_measure();
        } else if self.cur.kind == TokenType::INPUT {
            self.lemma_advance_measure();
            self.lemma_input_statement_measure();
            self.input_statement().lemma_nl_measure();
        } else {
        }
    }

    /// A sequence of statements leaves no more to do than there was.
    pub proof fn lemma_block_measure(self, closer: TokenType)
        ensures
            self.block(closer).measure() <= self.measure(),
        decreases self.measure(), 1nat,
    {
        if !(self.halted() || self.cur.kind == closer) {
            self.lemma_statement_progress();
            self.statement().lemma_block_measure(closer);
        }
    }

    /// A sequence of statements is its first statement and the sequence of
    /// those after it.
    pub proof fn lemma_block_unfolds(self, closer: TokenType)
        ensures
            self.block(closer) == if self.halted() || self.cur.kind == closer {
                self
            } else {
                self.statement().block(closer)
            },
    {
        if !(self.halted() || self.cur.kind == closer) {
            self.lemma_statement_progress();
        }
    }
}

} // verus!
