//! The parser: it reads the tokens once, checks the rules on names, and
//! writes the C text of each construct as soon as it has read it.

use vstd::prelude::*;
use crate::emitter::Emitter;
use crate::error::{CompileError, Expected, ParseError, SemanticError};
use crate::lex::{Lexer, Token, TokenType};
use crate::model::{lexes_to, primed, Model};
use crate::names::NameSet;

verus! {

/// A compilation in progress.
#[derive(Debug)]
pub struct Parser {
    pub lexer: Lexer,
    pub emitter: Emitter,
    pub cur_token: Token,
    pub peek_token: Token,
    pub symbols: NameSet,
    pub labels_declared: NameSet,
    pub labels_gotoed: NameSet,
}

impl View for Parser {
    type V = Model;

    open spec fn view(&self) -> Model {
        Model {
            source: self.lexer.source@,
            pos: self.lexer.position(),
            cur: self.cur_token@,
            peek: self.peek_token@,
            symbols: self.symbols@,
            declared: self.labels_declared@,
            gotoed: self.labels_gotoed@,
            header: self.emitter.header@,
            code: self.emitter.code@,
            error: None,
        }
    }
}

/// What a step of the parser leaves behind, where `target` is what the step
/// makes of the state before it: the parser is in the state `target`, the
/// result is the failure of `target` if it has one, the lexer still reads
/// the same source, and the output still has the same destination. After a
/// step that succeeds the parser is fit for the next.
pub open spec fn landed(
    before: Parser,
    after: Parser,
    result: Result<(), CompileError>,
    target: Model,
) -> bool {
    &&& after@ == target.resume()
    &&& after.lexer.source == before.lexer.source
    &&& after.emitter.full_path == before.emitter.full_path
    &&& match result {
        Ok(_) => !target.halted() && after.wf(),
        Err(error) => target.error == Some(error@),
    }
}

impl Parser {
    /// The lexer and the three sets of names are well formed, and the
    /// lookahead holds two tokens that follow one another in the source.
    pub open spec fn wf(&self) -> bool {
        &&& self.lexer.wf()
        &&& self.symbols.wf()
        &&& self.labels_declared.wf()
        &&& self.labels_gotoed.wf()
        &&& self@.in_step()
    }

    /// A parser over what `lexer` has still to read, writing to `emitter`.
    /// The first two tokens are taken at once; the lexer's failure on either
    /// is the parser's.
    pub fn new(lexer: Lexer, emitter: Emitter) -> (r: Result<Parser, CompileError>)
        requires
            lexer.wf(),
        ensures
            match r {
                Ok(parser) => {
                    &&& parser@ == primed(
                        lexer.source@,
                        lexer.position(),
                        emitter.header@,
                        emitter.code@,
                    )
                    &&& parser.wf()
                    &&& parser.lexer.source == lexer.source
                    &&& parser.emitter == emitter
                },
                Err(error) => primed(
                    lexer.source@,
                    lexer.position(),
                    emitter.header@,
                    emitter.code@,
                ).error == Some(error@),
            },
    {
        let ghost start = lexer.position();
        let mut lexer = lexer;
        let cur_token = match lexer.get_token() {
            Ok(token) => token,
            Err(error) => {
                return Err(CompileError::Lex(error));
            },
        };
        let ghost middle = lexer.position();
        let peek_token = match lexer.get_token() {
            Ok(token) => token,
            Err(error) => {
                return Err(CompileError::Lex(error));
            },
        };
        let parser = Parser {
            lexer,
            emitter,
            cur_token,
            peek_token,
            symbols: NameSet::new(),
            labels_declared: NameSet::new(),
            labels_gotoed: NameSet::new(),
        };
        proof {
            assert(lexes_to(parser@.source, start, parser@.cur, middle));
            assert(lexes_to(parser@.source, middle, parser@.peek, parser@.pos));
        }
        Ok(parser)
    }

    /// Whether the current token is of the given kind.
    pub fn check_token(&self, kind: TokenType) -> (r: bool)
        ensures
            r == (self.cur_token.kind == kind),
    {
        self.cur_token.kind == kind
    }

    /// Whether the current token is a comparison operator.
    pub fn check_comparison_operator(&self) -> (r: bool)
        ensures
            r == self.cur_token.kind.is_comparison(),
    {
        match self.cur_token.kind {
            TokenType::EQ
            | TokenType::EQEQ
            | TokenType::LT
            | TokenType::LTEQ
            | TokenType::GT
            | TokenType::GTEQ
            | TokenType::NOTEQ => true,
            _ => false,
        }
    }

    /// Moves the lookahead on by one token.
    pub fn next_token(&mut self) -> (r: Result<(), CompileError>)
        requires
            old(self).wf(),
        ensures
            landed(*old(self), *final(self), r, old(self)@.advance()),
    {
        match self.lexer.get_token() {
            Ok(token) => {
                let mut token = token;
                std::mem::swap(&mut self.peek_token, &mut token);
                self.cur_token = token;
                proof {
                    let source = self@.source;
                    let (first, second) = choose|first: int, second: int|
                        #![trigger lexes_to(source, first, old(self)@.cur, second)]
                        lexes_to(source, first, old(self)@.cur, second) && lexes_to(
                            source,
                            second,
                            old(self)@.peek,
                            old(self)@.pos,
                        );
                    assert(lexes_to(source, second, self@.cur, old(self)@.pos));
                    assert(lexes_to(source, old(self)@.pos, self@.peek, self@.pos));
                }
                Ok(())
            },
            Err(error) => Err(CompileError::Lex(error)),
        }
    }

    /// Takes the current token if it is of the given kind, and fails with
    /// both kinds if it is not.
    pub fn match_token(&mut self, kind: TokenType) -> (r: Result<(), CompileError>)
        requires
            old(self).wf(),
        ensures
            landed(*old(self), *final(self), r, old(self)@.expect(kind)),
    {
        if !self.check_token(kind) {
            return Err(
                CompileError::Parse(
                    ParseError::UnexpectedToken(Expected::Token(kind), self.cur_token.kind),
                ),
            );
        }
        self.next_token()
    }

    /// `nl`: one line break, and any that follow it.
    pub fn nl(&mut self) -> (r: Result<(), CompileError>)
        requires
            old(self).wf(),
        ensures
            landed(*old(self), *final(self), r, old(self)@.nl()),
    {
        self.match_token(TokenType::NEWLINE)?;
        self.skip_newlines()
    }

    /// Takes line breaks for as long as the current token is one.
    fn skip_newlines(&mut self) -> (r: Result<(), CompileError>)
        requires
            old(self).wf(),
        ensures
            landed(*old(self), *final(self), r, old(self)@.skip_newlines()),
    {
        while self.check_token(TokenType::NEWLINE)
            invariant
                self.wf(),
                self.lexer.source == old(self).lexer.source,
                self.emitter.full_path == old(self).emitter.full_path,
                self@.skip_newlines() == old(self)@.skip_newlines(),
            decreases self@.measure(),
        {
            proof {
                self@.lemma_advance_measure();
                assert(self@.advance().halted() ==> self@.advance().skip_newlines()
                    == self@.advance());
            }
            self.next_token()?;
        }
        Ok(())
    }

    /// `primary := NUMBER | IDENT`.
    pub fn primary(&mut self) -> (r: Result<(), CompileError>)
        requires
            old(self).wf(),
        ensures
            landed(*old(self), *final(self), r, old(self)@.primary()),
    {
        if self.check_token(TokenType::NUMBER) {
            self.emitter.emit(self.cur_token.get_text().as_str());
            self.next_token()
        } else if self.check_token(TokenType::IDENT) {
            let token_text = self.cur_token.get_text();
            if !self.symbols.contains(&token_text) {
                return Err(CompileError::Semantic(SemanticError::UndeclaredVariable(token_text)));
            }
            self.emitter.emit(token_text.as_str());
            self.next_token()
        } else {
            Err(
                CompileError::Parse(
                    ParseError::UnexpectedToken(Expected::Operand, self.cur_token.kind),
                ),
            )
        }
    }

    /// `unary := ["+" | "-"] primary`.
    pub fn unary(&mut self) -> (r: Result<(), CompileError>)
        requires
            old(self).wf(),
        ensures
            landed(*old(self), *final(self), r, old(self)@.unary()),
    {
        if self.check_token(TokenType::PLUS) || self.check_token(TokenType::MINUS) {
            self.emitter.emit(self.cur_token.get_text().as_str());
            self.next_token()?;
        }
        self.primary()
    }

    /// `term := unary {("*" | "/") unary}`.
    pub fn term(&mut self) -> (r: Result<(), CompileError>)
        requires
            old(self).wf(),
        ensures
            landed(*old(self), *final(self), r, old(self)@.term()),
    {
        self.unary()?;
        while self.check_token(TokenType::ASTERISK) || self.check_token(TokenType::SLASH)
            invariant
                self.wf(),
                self.lexer.source == old(self).lexer.source,
                self.emitter.full_path == old(self).emitter.full_path,
                self@.term_rest() == old(self)@.term(),
            decreases self@.measure(),
        {
            proof {
                let at = self@.emit(self@.cur.text);
                at.lemma_advance_measure();
                at.advance().lemma_unary_measure();
                assert(at.advance().unary().halted() ==> at.advance().unary().term_rest()
                    == at.advance().unary());
            }
            self.emitter.emit(self.cur_token.get_text().as_str());
            self.next_token()?;
            self.unary()?;
        }
        Ok(())
    }

    /// `expression := term {("+" | "-") term}`.
    pub fn expression(&mut self) -> (r: Result<(), CompileError>)
        requires
            old(self).wf(),
        ensures
            landed(*old(self), *final(self), r, old(self)@.expression()),
    {
        self.term()?;
        while self.check_token(TokenType::PLUS) || self.check_token(TokenType::MINUS)
            invariant
                self.wf(),
                self.lexer.source == old(self).lexer.source,
                self.emitter.full_path == old(self).emitter.full_path,
                self@.expression_rest() == old(self)@.expression(),
            decreases self@.measure(),
        {
            proof {
                let at = self@.emit(self@.cur.text);
                at.lemma_advance_measure();
                at.advance().lemma_term_measure();
                assert(at.advance().term().halted() ==> at.advance().term().expression_rest()
                    == at.advance().term());
            }
            self.emitter.emit(self.cur_token.get_text().as_str());
            self.next_token()?;
            self.term()?;
        }
        Ok(())
    }

    /// `comparison := expression comparator expression {comparator
    /// expression}`.
    pub fn comparison(&mut self) -> (r: Result<(), CompileError>)
        requires
            old(self).wf(),
        ensures
            landed(*old(self), *final(self), r, old(self)@.comparison()),
    {
        self.expression()?;
        if self.check_comparison_operator() {
            self.emitter.emit(self.cur_token.get_text().as_str());
            self.next_token()?;
            self.expression()?;
        } else {
            return Err(
                CompileError::Parse(ParseError::ExpectedComparisonOperator(self.cur_token.kind)),
            );
        }
        while self.check_comparison_operator()
            invariant
                self.wf(),
                self.lexer.source == old(self).lexer.source,
                self.emitter.full_path == old(self).emitter.full_path,
                self@.comparison_rest() == old(self)@.comparison(),
            decreases self@.measure(),
        {
            proof {
                let at = self@.emit(self@.cur.text);
                at.lemma_advance_measure();
                at.advance().lemma_expression_measure();
                assert(at.advance().expression().halted() ==> at.advance().expression().comparison_rest()
                    == at.advance().expression());
            }
            self.emitter.emit(self.cur_token.get_text().as_str());
            self.next_token()?;
            self.expression()?;
        }
        Ok(())
    }

    /// Declares the current token's text as a variable where it is new: it
    /// joins the symbols and the header gets its declaration.
    fn declare_current(&mut self)
        requires
            old(self).wf(),
        ensures
            final(self)@ == old(self)@.declare(old(self)@.cur.text),
            final(self).wf(),
            final(self).lexer.source == old(self).lexer.source,
            final(self).emitter.full_path == old(self).emitter.full_path,
    {
        let token_text = self.cur_token.get_text();
        if !self.symbols.contains(&token_text) {
            self.symbols.insert(token_text);
            self.emitter.header("float ");
            self.emitter.header(self.cur_token.get_text().as_str());
            self.emitter.header_line(";");
        }
    }

    /// `PRINT (STRING | expression)`.
    fn print_statement(&mut self) -> (r: Result<(), CompileError>)
        requires
            old(self).wf(),
        ensures
            landed(*old(self), *final(self), r, old(self)@.print_statement()),
    {
        proof {
            reveal(Model::print_statement);
        }
        self.next_token()?;
        if self.check_token(TokenType::STRING) {
            self.emitter.emit("printf(\"");
            self.emitter.emit(self.cur_token.get_text().as_str());
            self.emitter.emit_line("\\n\");");
            self.next_token()
        } else {
            self.emitter.emit("printf(\"%.2f\\n\", (float)(");
            self.expression()?;
            self.emitter.emit_line("));");
            Ok(())
        }
    }

    /// `IF comparison THEN nl {statement} ENDIF` and `WHILE comparison
    /// REPEAT nl {statement} ENDWHILE`, which differ in their three words
    /// only. `open` is what the code gets before the condition.
    fn block_statement(&mut self, open: &str, then: TokenType, closer: TokenType) -> (r: Result<
        (),
        CompileError,
    >)
        requires
            old(self).wf(),
            old(self).cur_token.kind != TokenType::EOF,
        ensures
            landed(
                *old(self),
                *final(self),
                r,
                old(self)@.block_head(open@, then).block(closer).expect(closer).emit_line("}"@),
            ),
        decreases old(self)@.measure(), 0nat,
    {
        proof {
            reveal(Model::block_head);
            old(self)@.lemma_block_head_measure(open@, then);
        }
        self.next_token()?;
        self.emitter.emit(open);
        self.comparison()?;
        self.match_token(then)?;
        self.nl()?;
        self.emitter.emit_line(") {");
        let ghost head = self@;
        while !self.check_token(closer)
            invariant
                self.wf(),
                self.lexer.source == old(self).lexer.source,
                self.emitter.full_path == old(self).emitter.full_path,
                self@.block(closer) == head.block(closer),
                self@.measure() < old(self)@.measure(),
                head == old(self)@.block_head(open@, then),
            decreases self@.measure(),
        {
            proof {
                self@.lemma_statement_progress();
                self@.lemma_block_unfolds(closer);
                self@.statement().lemma_block_unfolds(closer);
            }
            self.statement()?;
        }
        self.match_token(closer)?;
        self.emitter.emit_line("}");
        Ok(())
    }

    /// `LABEL IDENT`. The label must be new.
    fn label_statement(&mut self) -> (r: Result<(), CompileError>)
        requires
            old(self).wf(),
        ensures
            landed(*old(self), *final(self), r, old(self)@.label_statement()),
    {
        proof {
            reveal(Model::label_statement);
        }
        self.next_token()?;
        let token_text = self.cur_token.get_text();
        if self.labels_declared.contains(&token_text) {
            return Err(CompileError::Semantic(SemanticError::DuplicateLabel(token_text)));
        }
        self.labels_declared.insert(token_text);
        self.emitter.emit(self.cur_token.get_text().as_str());
        self.emitter.emit_line(":");
        self.match_token(TokenType::IDENT)
    }

    /// `GOTO IDENT`. Whether the label exists is checked at the end of the
    /// program.
    fn goto_statement(&mut self) -> (r: Result<(), CompileError>)
        requires
            old(self).wf(),
        ensures
            landed(*old(self), *final(self), r, old(self)@.goto_statement()),
    {
        proof {
            reveal(Model::goto_statement);
        }
        self.next_token()?;
        self.labels_gotoed.insert(self.cur_token.get_text());
        self.emitter.emit("goto ");
        self.emitter.emit(self.cur_token.get_text().as_str());
        self.emitter.emit_line(";");
        self.match_token(TokenType::IDENT)
    }

    /// `LET IDENT EQ expression`.
    fn let_statement(&mut self) -> (r: Result<(), CompileError>)
        requires
            old(self).wf(),
        ensures
            landed(*old(self), *final(self), r, old(self)@.let_statement()),
    {
        proof {
            reveal(Model::let_statement);
        }
        self.next_token()?;
        self.declare_current();
        self.emitter.emit(self.cur_token.get_text().as_str());
        self.emitter.emit(" = ");
        self.match_token(TokenType::IDENT)?;
        self.match_token(TokenType::EQ)?;
        self.expression()?;
        self.emitter.emit_line(";");
        Ok(())
    }

    /// `INPUT IDENT`.
    fn input_statement(&mut self) -> (r: Result<(), CompileError>)
        requires
            old(self).wf(),
        ensures
            landed(*old(self), *final(self), r, old(self)@.input_statement()),
    {
        proof {
            reveal(Model::input_statement);
        }
        self.next_token()?;
        self.declare_current();
        self.emitter.emit("if(0 == scanf(\"%f\", &");
        self.emitter.emit(self.cur_token.get_text().as_str());
        self.emitter.emit_line(")) {");
        self.emitter.emit(self.cur_token.get_text().as_str());
        self.emitter.emit_line(" = 0;");
        self.emitter.emit_line("scanf(\"%*s\");");
        self.emitter.emit_line("}");
        self.match_token(TokenType::IDENT)
    }

    /// One statement, with the line's end after it.
    pub fn statement(&mut self) -> (r: Result<(), CompileError>)
        requires
            old(self).wf(),
        ensures
            landed(*old(self), *final(self), r, old(self)@.statement()),
        decreases old(self)@.measure(), 1nat,
    {
        if self.check_token(TokenType::PRINT) {
            self.print_statement()?;
        } else if self.check_token(TokenType::IF) {
            self.block_statement("if (", TokenType::THEN, TokenType::ENDIF)?;
        } else if self.check_token(TokenType::WHILE) {
            self.block_statement("while (", TokenType::REPEAT, TokenType::ENDWHILE)?;
        } else if self.check_token(TokenType::LABEL) {
            self.label_statement()?;
        } else if self.check_token(TokenType::GOTO) {
            self.goto_statement()?;
        } else if self.check_token(TokenType::LET) {
            self.let_statement()?;
        } else if self.check_token(TokenType::INPUT) {
            self.input_statement()?;
        } else {
            return Err(
                CompileError::Parse(
                    ParseError::UnexpectedToken(Expected::Statement, self.cur_token.kind),
                ),
            );
        }
        self.nl()
    }

    /// The whole program: the opening of the output, the statements up to
    /// the end of the source, the closing of the output, and the check that
    /// every label named by a `GOTO` is declared.
    pub fn program(&mut self) -> (r: Result<(), CompileError>)
        requires
            old(self).wf(),
        ensures
            landed(*old(self), *final(self), r, old(self)@.program()),
    {
        self.emitter.header_line("#include <stdio.h>");
        self.emitter.header_line("int main(void){");
        self.skip_newlines()?;
        let ghost first = self@;
        while !self.check_token(TokenType::EOF)
            invariant
                self.wf(),
                self.lexer.source == old(self).lexer.source,
                self.emitter.full_path == old(self).emitter.full_path,
                self@.block(TokenType::EOF) == first.block(TokenType::EOF),
                old(self)@.program() == first.block(TokenType::EOF).emit_line(
                    "return 0;"@,
                ).emit_line("}"@).check_labels(),
            decreases self@.measure(),
        {
            proof {
                self@.lemma_statement_progress();
                self@.lemma_block_unfolds(TokenType::EOF);
                self@.statement().lemma_block_unfolds(TokenType::EOF);
            }
            self.statement()?;
        }
        self.emitter.emit_line("return 0;");
        self.emitter.emit_line("}");
        match self.labels_gotoed.first_missing_in(&self.labels_declared) {
            Some(label) => Err(CompileError::Semantic(SemanticError::UndeclaredLabel(label))),
            None => Ok(()),
        }
    }

    /// Compiles the program and hands back the output: the header, then the
    /// code. Nothing is handed back if the compilation fails.
    pub fn emit(&mut self) -> (r: Result<String, CompileError>)
        requires
            old(self).wf(),
        ensures
            final(self)@ == old(self)@.program().resume(),
            final(self).lexer.source == old(self).lexer.source,
            final(self).emitter.full_path == old(self).emitter.full_path,
            match r {
                Ok(output) => {
                    &&& !old(self)@.program().halted()
                    &&& output@ == old(self)@.program().header + old(self)@.program().code
                    &&& final(self).wf()
                },
                Err(error) => old(self)@.program().error == Some(error@),
            },
    {
        self.program()?;
        Ok(self.emitter.output())
    }
}

} // verus!
