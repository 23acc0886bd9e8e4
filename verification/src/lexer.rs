//! The lexer: keywords, tokens and the tokenizer.
pub mod keyword;
pub mod token;
pub mod lexical_analyzer;
