pub mod ast;
pub mod error;
pub mod lexer;
pub mod num;
pub mod parser;
pub mod text;
pub mod token;
