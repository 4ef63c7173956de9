//! A compiler for a small imperative language: a maximal-munch lexer, a
//! precedence-climbing recursive-descent parser, a semantic checker that
//! resolves names and types, and a code generator that emits textual
//! 64-bit assembly.
//!
//! The pipeline runs strictly in order; each stage consumes the previous
//! stage's output and stops at the first error.

pub mod errors;
pub mod lex;
pub mod parse;
pub mod semantic;
pub mod code_gen;
