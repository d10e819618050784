//! The front end: tokens, reserved words, the lexer and the parser's state.
pub mod token;
pub mod keywords;
pub mod diagnostics;
pub mod lexer;
pub mod precedence;
pub mod config;
pub mod string_interner;
pub mod parser_state;
pub mod ast;
pub mod grammar;
pub mod grammar_laws;
pub mod parser;
pub mod compiler;
