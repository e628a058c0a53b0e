//! What holds of every compilation: the sets of names and the two buffers
//! only grow, the header lists the variables in the order of their first
//! appearance, and a missing label is found at the end of the program and
//! nowhere else.

use vstd::prelude::*;
use crate::error::{ErrorView, SemanticErrorView};
use crate::model::{primed, Model};
use crate::names::{first_missing, lemma_first_missing_from};
use crate::token::TokenType;

verus! {

/// The header lines that declare the variables `names`, in their order.
pub open spec fn declarations(names: Seq<Seq<char>>) -> Seq<char>
    decreases names.len(),
{
    if names.len() == 0 {
        Seq::empty()
    } else {
        declarations(names.drop_last()) + "float "@ + names.last() + ";"@ + "\n"@
    }
}

impl Model {
    /// Whether the compilation has failed for a label that is named by a
    /// `GOTO` and declared nowhere.
    pub open spec fn lacks_label(self) -> bool {
        self.error matches Some(ErrorView::Semantic(SemanticErrorView::UndeclaredLabel(_)))
    }

    /// Whether `later` may come after this state in the course of the
    /// statements of a program: the source is the same; the sets of names
    /// and the code buffer have grown at their ends, if at all, and no name
    /// has come to stand twice; the header has grown by the declarations of
    /// the new variables and by nothing else; and no failure for a missing
    /// label has come up.
    pub open spec fn grows_to(self, later: Model) -> bool {
        &&& later.source == self.source
        &&& self.symbols.is_prefix_of(later.symbols)
        &&& self.declared.is_prefix_of(later.declared)
        &&& self.gotoed.is_prefix_of(later.gotoed)
        &&& self.symbols.no_duplicates() ==> later.symbols.no_duplicates()
        &&& self.declared.no_duplicates() ==> later.declared.no_duplicates()
        &&& self.gotoed.no_duplicates() ==> later.gotoed.no_duplicates()
        &&& self.code.is_prefix_of(later.code)
        &&& later.header == self.header + declarations(
            later.symbols.skip(self.symbols.len() as int),
        )
        &&& later.lacks_label() ==> later.error == self.error
    }

    /// A state may come after itself: nothing has been added.
    pub proof fn lemma_grows_to_itself(self)
        ensures
            self.grows_to(self),
    {
        assert(self.symbols.skip(self.symbols.len() as int) =~= Seq::<Seq<char>>::empty());
        assert(self.header + Seq::<char>::empty() =~= self.header);
    }

    /// Writing code only adds to what there was.
    pub proof fn lemma_emit_grows(self, origin: Model, text: Seq<char>)
        requires
            origin.grows_to(self),
        ensures
            origin.grows_to(self.emit(text)),
            origin.grows_to(self.emit_line(text)),
    {
    }

    /// Taking a token only adds to what there was.
    pub proof fn lemma_advance_grows(self, origin: Model)
        requires
            origin.grows_to(self),
        ensures
            origin.grows_to(self.advance()),
    {
    }

    /// Taking a token of a given kind only adds to what there was.
    pub proof fn lemma_expect_grows(self, origin: Model, kind: TokenType)
        requires
            origin.grows_to(self),
        ensures
            origin.grows_to(self.expect(kind)),
    {
    }

    /// Declaring a variable only adds to what there was.
    pub proof fn lemma_declare_grows(self, origin: Model, name: Seq<char>)
        requires
            origin.grows_to(self),
        ensures
            origin.grows_to(self.declare(name)),
    {
        if !(self.halted() || self.symbols.contains(name)) {
            let after = self.declare(name);
            let from = origin.symbols.len() as int;
            assert(after.symbols == self.symbols.push(name));
            assert(after.symbols.skip(from) =~= self.symbols.skip(from).push(name));
            assert(after.symbols.skip(from).drop_last() =~= self.symbols.skip(from));
            assert(after.header =~= origin.header + declarations(after.symbols.skip(from)));
            assert(origin.symbols.is_prefix_of(after.symbols));
            if self.symbols.no_duplicates() {
                assert(after.symbols.no_duplicates());
            }
        }
    }

    /// Declaring a label only adds to what there was.
    pub proof fn lemma_declare_label_grows(self, origin: Model, name: Seq<char>)
        requires
            origin.grows_to(self),
        ensures
            origin.grows_to(self.declare_label(name)),
    {
        if !self.halted() && !self.declared.contains(name) {
            assert(origin.declared.is_prefix_of(self.declared.push(name)));
            if self.declared.no_duplicates() {
                assert(self.declared.push(name).no_duplicates());
            }
        }
    }

    /// Recording the label of a `GOTO` only adds to what there was.
    pub proof fn lemma_note_goto_grows(self, origin: Model, name: Seq<char>)
        requires
            origin.grows_to(self),
        ensures
            origin.grows_to(self.note_goto(name)),
    {
        if !self.halted() && !self.gotoed.contains(name) {
            assert(origin.gotoed.is_prefix_of(self.gotoed.push(name)));
            if self.gotoed.no_duplicates() {
                assert(self.gotoed.push(name).no_duplicates());
            }
        }
    }

    /// Taking line breaks only adds to what there was.
    pub proof fn lemma_skip_newlines_grows(self, origin: Model)
        requires
            origin.grows_to(self),
        ensures
            origin.grows_to(self.skip_newlines()),
        decreases self.measure(),
    {
        if !self.halted() && self.cur.kind == TokenType::NEWLINE {
            self.lemma_advance_measure();
            self.lemma_advance_grows(origin);
            self.advance().lemma_skip_newlines_grows(origin);
        }
    }

    /// The end of a line only adds to what there was.
    pub proof fn lemma_nl_grows(self, origin: Model)
        requires
            origin.grows_to(self),
        ensures
            origin.grows_to(self.nl()),
    {
        self.lemma_expect_grows(origin, TokenType::NEWLINE);
        self.expect(TokenType::NEWLINE).lemma_skip_newlines_grows(origin);
    }

    /// A primary only adds to what there was.
    pub proof fn lemma_primary_grows(self, origin: Model)
        requires
            origin.grows_to(self),
        ensures
            origin.grows_to(self.primary()),
    {
        self.lemma_emit_grows(origin, self.cur.text);
        self.emit(self.cur.text).lemma_advance_grows(origin);
    }

    /// A unary only adds to what there was.
    pub proof fn lemma_unary_grows(self, origin: Model)
        requires
            origin.grows_to(self),
        ensures
            origin.grows_to(self.unary()),
    {
        self.lemma_emit_grows(origin, self.cur.text);
        self.emit(self.cur.text).lemma_advance_grows(origin);
        self.emit(self.cur.text).advance().lemma_primary_grows(origin);
        self.lemma_primary_grows(origin);
    }

    /// The rest of a term only adds to what there was.
    pub proof fn lemma_term_rest_grows(self, origin: Model)
        requires
            origin.grows_to(self),
        ensures
            origin.grows_to(self.term_rest()),
        decreases self.measure(),
    {
        if !self.halted() && (self.cur.kind == TokenType::ASTERISK || self.cur.kind
            == TokenType::SLASH) {
            let at = self.emit(self.cur.text);
            self.lemma_emit_grows(origin, self.cur.text);
            at.lemma_advance_grows(origin);
            at.lemma_advance_measure();
            at.advance().lemma_unary_grows(origin);
            at.advance().lemma_unary_measure();
            at.advance().unary().lemma_term_rest_grows(origin);
        }
    }

    /// A term only adds to what there was.
    pub proof fn lemma_term_grows(self, origin: Model)
        requires
            origin.grows_to(self),
        ensures
            origin.grows_to(self.term()),
    {
        self.lemma_unary_grows(origin);
        self.unary().lemma_term_rest_grows(origin);
    }

    /// The rest of an expression only adds to what there was.
    pub proof fn lemma_expression_rest_grows(self, origin: Model)
        requires
            origin.grows_to(self),
        ensures
            origin.grows_to(self.expression_rest()),
        decreases self.measure(),
    {
        if !self.halted() && (self.cur.kind == TokenType::PLUS || self.cur.kind
            == TokenType::MINUS) {
            let at = self.emit(self.cur.text);
            self.lemma_emit_grows(origin, self.cur.text);
            at.lemma_advance_grows(origin);
            at.lemma_advance_measure();
            at.advance().lemma_term_grows(origin);
            at.advance().lemma_term_measure();
            at.advance().term().lemma_expression_rest_grows(origin);
        }
    }

    /// An expression only adds to what there was.
    pub proof fn lemma_expression_grows(self, origin: Model)
        requires
            origin.grows_to(self),
        ensures
            origin.grows_to(self.expression()),
    {
        self.lemma_term_grows(origin);
        self.term().lemma_expression_rest_grows(origin);
    }

    /// The rest of a comparison only adds to what there was.
    pub proof fn lemma_comparison_rest_grows(self, origin: Model)
        requires
            origin.grows_to(self),
        ensures
            origin.grows_to(self.comparison_rest()),
        decreases self.measure(),
    {
        if !self.halted() && self.cur.kind.is_comparison() {
            let at = self.emit(self.cur.text);
            self.lemma_emit_grows(origin, self.cur.text);
            at.lemma_advance_grows(origin);
            at.lemma_advance_measure();
            at.advance().lemma_expression_grows(origin);
            at.advance().lemma_expression_measure();
            at.advance().expression().lemma_comparison_rest_grows(origin);
        }
    }

    /// A comparison only adds to what there was.
    pub proof fn lemma_comparison_grows(self, origin: Model)
        requires
            origin.grows_to(self),
        ensures
            origin.grows_to(self.comparison()),
    {
        self.lemma_expression_grows(origin);
        let left = self.expression();
        if !left.halted() && left.cur.kind.is_comparison() {
            let at = left.emit(left.cur.text);
            left.lemma_emit_grows(origin, left.cur.text);
            at.lemma_advance_grows(origin);
            at.advance().lemma_expression_grows(origin);
            at.advance().expression().lemma_comparison_rest_grows(origin);
        }
    }

    /// A `PRINT` statement only adds to what there was.
    pub proof fn lemma_print_statement_grows(self, origin: Model)
        requires
            origin.grows_to(self),
        ensures
            origin.grows_to(self.print_statement()),
    {
        reveal(Model::print_statement);
        let at = self.advance();
        self.lemma_advance_grows(origin);
        if !at.halted() && at.cur.kind == TokenType::STRING {
            at.lemma_emit_grows(origin, "printf(\""@);
            at.emit("printf(\""@).lemma_emit_grows(origin, at.cur.text);
            at.emit("printf(\""@).emit(at.cur.text).lemma_emit_grows(origin, "\\n\");"@);
            at.emit("printf(\""@).emit(at.cur.text).emit_line("\\n\");"@).lemma_advance_grows(
                origin,
            );
        } else {
            at.lemma_emit_grows(origin, "printf(\"%.2f\\n\", (float)("@);
            at.emit("printf(\"%.2f\\n\", (float)("@).lemma_expression_grows(origin);
            at.emit("printf(\"%.2f\\n\", (float)("@).expression().lemma_emit_grows(
                origin,
                "));"@,
            );
        }
    }

    /// The head of a block only adds to what there was.
    pub proof fn lemma_block_head_grows(self, origin: Model, open: Seq<char>, closer: TokenType)
        requires
            origin.grows_to(self),
        ensures
            origin.grows_to(self.block_head(open, closer)),
    {
        reveal(Model::block_head);
        self.lemma_advance_grows(origin);
        self.advance().lemma_emit_grows(origin, open);
        let at = self.advance().emit(open);
        at.lemma_comparison_grows(origin);
        at.comparison().lemma_expect_grows(origin, closer);
        at.comparison().expect(closer).lemma_nl_grows(origin);
        at.comparison().expect(closer).nl().lemma_emit_grows(origin, ") {"@);
    }

    /// A `LABEL` statement only adds to what there was.
    pub proof fn lemma_label_statement_grows(self, origin: Model)
        requires
            origin.grows_to(self),
        ensures
            origin.grows_to(self.label_statement()),
    {
        reveal(Model::label_statement);
        let at = self.advance();
        self.lemma_advance_grows(origin);
        at.lemma_declare_label_grows(origin, at.cur.text);
        let named = at.declare_label(at.cur.text);
        named.lemma_emit_grows(origin, at.cur.text);
        named.emit(at.cur.text).lemma_emit_grows(origin, ":"@);
        named.emit(at.cur.text).emit_line(":"@).lemma_expect_grows(origin, TokenType::IDENT);
    }

    /// A `GOTO` statement only adds to what there was.
    pub proof fn lemma_goto_statement_grows(self, origin: Model)
        requires
            origin.grows_to(self),
        ensures
            origin.grows_to(self.goto_statement()),
    {
        reveal(Model::goto_statement);
        let at = self.advance();
        self.lemma_advance_grows(origin);
        at.lemma_note_goto_grows(origin, at.cur.text);
        let noted = at.note_goto(at.cur.text);
        noted.lemma_emit_grows(origin, "goto "@);
        noted.emit("goto "@).lemma_emit_grows(origin, at.cur.text);
        noted.emit("goto "@).emit(at.cur.text).lemma_emit_grows(origin, ";"@);
        noted.emit("goto "@).emit(at.cur.text).emit_line(";"@).lemma_expect_grows(
            origin,
            TokenType::IDENT,
        );
    }

    /// A `LET` statement only adds to what there was.
    pub proof fn lemma_let_statement_grows(self, origin: Model)
        requires
            origin.grows_to(self),
        ensures
            origin.grows_to(self.let_statement()),
    {
        reveal(Model::let_statement);
        let at = self.advance();
        self.lemma_advance_grows(origin);
        at.lemma_declare_grows(origin, at.cur.text);
        let named = at.declare(at.cur.text);
        named.lemma_emit_grows(origin, at.cur.text);
        named.emit(at.cur.text).lemma_emit_grows(origin, " = "@);
        let written = named.emit(at.cur.text).emit(" = "@);
        written.lemma_expect_grows(origin, TokenType::IDENT);
        written.expect(TokenType::IDENT).lemma_expect_grows(origin, TokenType::EQ);
        let value = written.expect(TokenType::IDENT).expect(TokenType::EQ);
        value.lemma_expression_grows(origin);
        value.expression().lemma_emit_grows(origin, ";"@);
    }

    /// An `INPUT` statement only adds to what there was.
    pub proof fn lemma_input_statement_grows(self, origin: Model)
        requires
            origin.grows_to(self),
        ensures
            origin.grows_to(self.input_statement()),
    {
        reveal(Model::input_statement);
        let at = self.advance();
        self.lemma_advance_grows(origin);
        at.lemma_declare_grows(origin, at.cur.text);
        let a = at.declare(at.cur.text);
        a.lemma_emit_grows(origin, "if(0 == scanf(\"%f\", &"@);
        let b = a.emit("if(0 == scanf(\"%f\", &"@);
        b.lemma_emit_grows(origin, at.cur.text);
        let c = b.emit(at.cur.text);
        c.lemma_emit_grows(origin, ")) {"@);
        let d = c.emit_line(")) {"@);
        d.lemma_emit_grows(origin, at.cur.text);
        let e = d.emit(at.cur.text);
        e.lemma_emit_grows(origin, " = 0;"@);
        let f = e.emit_line(" = 0;"@);
        f.lemma_emit_grows(origin, "scanf(\"%*s\");"@);
        let g = f.emit_line("scanf(\"%*s\");"@);
        g.lemma_emit_grows(origin, "}"@);
        g.emit_line("}"@).lemma_expect_grows(origin, TokenType::IDENT);
    }

    /// A statement only adds: to the names, to the code, and to the header
    /// the declarations of the variables that it is the first to name.
    pub proof fn lemma_statement_grows(self, origin: Model)
        requires
            origin.grows_to(self),
        ensures
            origin.grows_to(self.statement()),
        decreases self.measure(), 0nat,
    {
        if self.halted() {
        } else if self.cur.kind == TokenType::PRINT {
            self.lemma_print_statement_grows(origin);
            self.print_statement().lemma_nl_grows(origin);
        } else if self.cur.kind == TokenType::IF {
            self.lemma_block_head_grows(origin, "if ("@, TokenType::THEN);
            self.lemma_block_head_measure("if ("@, TokenType::THEN);
            let head = self.block_head("if ("@, TokenType::THEN);
            head.lemma_block_grows(origin, TokenType::ENDIF);
            let body = head.block(TokenType::ENDIF);
            body.lemma_expect_grows(origin, TokenType::ENDIF);
            body.expect(TokenType::ENDIF).lemma_emit_grows(origin, "}"@);
            body.expect(TokenType::ENDIF).emit_line("}"@).lemma_nl_grows(origin);
        } else if self.cur.kind == TokenType::WHILE {
            self.lemma_block_head_grows(origin, "while ("@, TokenType::REPEAT);
            self.lemma_block_head_measure("while ("@, TokenType::REPEAT);
            let head = self.block_head("while ("@, TokenType::REPEAT);
            head.lemma_block_grows(origin, TokenType::ENDWHILE);
            let body = head.block(TokenType::ENDWHILE);
            body.lemma_expect_grows(origin, TokenType::ENDWHILE);
            body.expect(TokenType::ENDWHILE).lemma_emit_grows(origin, "}"@);
            body.expect(TokenType::ENDWHILE).emit_line("}"@).lemma_nl_grows(origin);
        } else if self.cur.kind == TokenType::LABEL {
            self.lemma_label_statement_grows(origin);
            self.label_statement().lemma_nl_grows(origin);
        } else if self.cur.kind == TokenType::GOTO {
            self.lemma_goto_statement_grows(origin);
            self.goto_statement().lemma_nl_grows(origin);
        } else if self.cur.kind == TokenType::LET {
            self.lemma_let_statement_grows(origin);
            self.let_statement().lemma_nl_grows(origin);
        } else if self.cur.kind == TokenType::INPUT {
            self.lemma_input_statement_grows(origin);
            self.input_statement().lemma_nl_grows(origin);
        } else {
        }
    }

    /// A sequence of statements only adds, as each of them does, and where
    /// it does not fail it ends before a token of the kind that closes it.
    pub proof fn lemma_block_grows(self, origin: Model, closer: TokenType)
        requires
            origin.grows_to(self),
        ensures
            origin.grows_to(self.block(closer)),
            !self.block(closer).halted() ==> self.block(closer).cur.kind == closer,
        decreases self.measure(), 1nat,
    {
        if !(self.halted() || self.cur.kind == closer) {
            self.lemma_statement_progress();
            self.lemma_statement_grows(origin);
            self.statement().lemma_block_grows(origin, closer);
        }
    }

    /// What holds at the end of a program.
    ///
    /// The source is untouched, and the sets of names and the code have only
    /// grown. The header has grown by its two opening lines and then by one
    /// declaration for each new variable, in the order of first appearance.
    /// Where the program compiles, the tokens are used up, every label that a
    /// `GOTO` names is declared, and the code ends with the two lines that
    /// close the output. Where it fails for a missing label,
    /// the tokens are used up as well: all statements were read before the
    /// label was found missing, and it is one that a `GOTO` names and that
    /// no `LABEL` declares.
    pub proof fn lemma_program_outcome(self)
        requires
            !self.halted(),
        ensures
            ({
                let end = self.program();
                &&& end.source == self.source
                &&& self.symbols.is_prefix_of(end.symbols)
                &&& self.declared.is_prefix_of(end.declared)
                &&& self.gotoed.is_prefix_of(end.gotoed)
                &&& self.code.is_prefix_of(end.code)
                &&& end.header == self.header + "#include <stdio.h>"@ + "\n"@
                    + "int main(void){"@ + "\n"@ + declarations(
                    end.symbols.skip(self.symbols.len() as int),
                )
                &&& !end.halted() ==> {
                    &&& end.cur.kind == TokenType::EOF
                    &&& forall|name: Seq<char>| #[trigger]
                        end.gotoed.contains(name) ==> end.declared.contains(name)
                    &&& ("return 0;"@ + "\n"@ + "}"@ + "\n"@).is_suffix_of(end.code)
                }
                &&& end.error matches Some(
                    ErrorView::Semantic(SemanticErrorView::UndeclaredLabel(name)),
                ) ==> {
                    &&& end.cur.kind == TokenType::EOF
                    &&& end.gotoed.contains(name)
                    &&& !end.declared.contains(name)
                }
            }),
    {
        let opened = self.head_line("#include <stdio.h>"@).head_line("int main(void){"@);
        opened.lemma_grows_to_itself();
        opened.lemma_skip_newlines_grows(opened);
        let first = opened.skip_newlines();
        first.lemma_block_grows(opened, TokenType::EOF);
        let body = first.block(TokenType::EOF);
        body.lemma_emit_grows(opened, "return 0;"@);
        body.emit_line("return 0;"@).lemma_emit_grows(opened, "}"@);
        let closed = body.emit_line("return 0;"@).emit_line("}"@);
        lemma_first_missing_from(closed.gotoed, closed.declared, 0);
        let end = closed.check_labels();
        assert(end == self.program());
        if !end.halted() {
            let closing = "return 0;"@ + "\n"@ + "}"@ + "\n"@;
            assert(end.code =~= body.code + closing);
            assert(closing =~= end.code.subrange(
                end.code.len() - closing.len(),
                end.code.len() as int,
            ));
            assert forall|name: Seq<char>| #[trigger]
                end.gotoed.contains(name) implies end.declared.contains(name) by {
                let i = choose|i: int| 0 <= i < end.gotoed.len() && end.gotoed[i] == name;
                assert(end.declared.contains(end.gotoed[i]));
            }
        }
    }
}

/// The outcome of a compilation depends on nothing but the source text, the
/// place in it where the lexer starts, and what the two buffers hold at the
/// start: two compilations that agree in these end in the same state, with
/// the same output or the same failure.
pub proof fn lemma_compilation_is_deterministic(
    source: Seq<char>,
    pos: int,
    header: Seq<char>,
    code: Seq<char>,
    first: Model,
    second: Model,
)
    requires
        first == primed(source, pos, header, code),
        second == primed(source, pos, header, code),
    ensures
        first.program() == second.program(),
        first.program().header + first.program().code == second.program().header
            + second.program().code,
        first.program().error == second.program().error,
{
}

} // verus!
