//! The interpreter: the machine that runs a program step by step, the
//! variables of a running program, the functions and coroutines it defines,
//! and the evaluation of operators.
pub mod named;
pub mod environment;
pub mod function;
pub mod coroutine;
pub mod execute;
pub mod machine;
