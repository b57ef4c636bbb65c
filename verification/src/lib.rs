//! A small statement language: lexer, parser and interpreter.

pub mod text;
pub mod token;
pub mod lexer;
pub mod ast;
pub mod parser;
pub mod interp;
pub mod pipeline;
pub mod lemmas;
