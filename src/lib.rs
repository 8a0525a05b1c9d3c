pub mod error;
pub mod symbols;
pub mod casm;
pub mod assembler;
pub mod lexer;
pub mod ast;
pub mod lower_to_casm;
pub mod artifact;
pub mod parser;
pub mod text;
