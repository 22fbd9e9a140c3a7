//! Front end for a small declarative expression language: character
//! classification, a verified tokenizer that turns source text into an
//! ordered token sequence, and the abstract-syntax-tree vocabulary that a
//! parser for the language builds over.

pub mod chars;
pub mod tokens;
pub mod lexer;
pub mod ast;
pub mod parser;
pub mod env;
pub mod interpreter;
