//! The front end of a compiler for a small Go-like language: a scanner that
//! turns source bytes into tokens, inserting statement terminators as it
//! goes, and a recursive-descent parser that turns tokens into an untyped
//! syntax tree. Both are specified by pure functions over sequences and
//! proved to compute exactly what those functions say.

pub mod error;
pub mod grammar;
pub mod grammar_laws;
pub mod lexical;
pub mod lexical_laws;
pub mod loc;
pub mod numeral;
pub mod operator_laws;
pub mod parser;
pub mod scanner;
pub mod semicolon_laws;
pub mod strings;
pub mod token;
pub mod untyped_ast;
pub mod word_laws;
