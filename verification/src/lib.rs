//! A single-pass compiler from a small BASIC dialect to C source text.
//!
//! The [`lex::Lexer`] turns the characters of a program into tokens, one at
//! a time. The [`parse::Parser`] reads the tokens with a lookahead of two,
//! checks that variables and labels are declared, and writes the C text of
//! each construct into the two buffers of an [`emitter::Emitter`] as soon as
//! it has recognised the construct. The first failure ends the compilation.
//!
//! What each step does is defined on [`model::Model`], the parser's state as
//! it appears in contracts; [`laws`] holds what follows for every
//! compilation.

pub mod emitter;
pub mod error;
pub mod laws;
pub mod lex;
pub mod model;
pub mod names;
pub mod parse;
pub mod text;
pub mod token;
