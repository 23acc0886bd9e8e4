//! Vocabulary shared by every stage: keywords, operators and value types.
pub mod keyword;
pub mod operator;
pub mod types;
