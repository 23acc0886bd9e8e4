//! The semantic analyser and the tables it fills.
pub mod variable_table;
pub mod function_table;
pub mod coroutine_table;
pub mod task_table;
pub mod semantic;
