//! The command line of the interpreter.
pub mod args;
