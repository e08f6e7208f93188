//! The front end of a small scripting language: a tokenizer that turns
//! source text into tokens, and a parser that turns tokens into a syntax
//! tree while collecting diagnostics.

pub mod token;
pub mod lexer;
pub mod ast;
pub mod integer;
pub mod parser;
