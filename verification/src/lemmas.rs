//! What holds of the language as a whole: statements about the grammar and
//! about the meaning of programs, each proved from the definitions.

pub mod lexing;
pub mod parsing;
pub mod running;
pub mod whole;
