//! Front end for a small expression-oriented language: a tokenizer that turns
//! source text into a flat token stream, and a precedence-climbing parser that
//! turns the token stream into an abstract syntax tree.

pub mod ast;
pub mod laws;
pub mod lexer;
pub mod parser;
pub mod token;
