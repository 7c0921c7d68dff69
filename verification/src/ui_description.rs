//! The JSX-like UI description language: tokens, lexer, parser and AST.
pub mod ast;
pub mod diagnostic;
pub mod lexer;
pub mod parser;
pub mod token;
pub mod token_kind;
