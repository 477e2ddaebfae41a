//! Front end for a small expression language: a grapheme-aware lexer, a
//! precedence-climbing parser, a type-checking binder and an evaluator, with
//! one diagnostics log threaded through every stage.

pub mod diagnostic;
pub mod lexer;
pub mod parser;
pub mod binder;
pub mod compilation;
pub mod runtime;
pub mod utils;
