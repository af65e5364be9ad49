//! Command dispatch and reply framing for a small key-value store that
//! speaks a line-oriented, length-prefixed text protocol.

pub mod bytes;
pub mod decimal;
pub mod parser;
pub mod database;
pub mod command;
pub mod framing;
pub mod laws;
