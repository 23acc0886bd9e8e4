//! The Green language: lexer, parser, semantic analyser and the pieces of
//! the interpreter, with their contracts.
pub mod text;
pub mod common;
pub mod keyword;
pub mod operator;
pub mod lexer;
pub mod error;
pub mod parser;
pub mod analyzer;
pub mod interpreter;
pub mod utils;
pub mod cli_arg_parse;
pub mod cli;
