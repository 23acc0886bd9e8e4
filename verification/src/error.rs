//! Error codes, the context an error is reported with, and the rendering of
//! error messages from their templates.
pub mod error_code;
pub mod error_context;
pub mod error_message;
