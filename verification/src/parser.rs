//! The parser: the syntax tree, the grammar it follows, and the
//! recursive-descent parser.
pub mod node;
pub mod grammar;
pub mod ast;
