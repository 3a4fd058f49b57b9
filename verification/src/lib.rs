//! Client-side engine for the line-oriented, JSON-framed protocol of the
//! Isabelle server.

pub mod classify;
pub mod client;
pub mod command;
pub mod commands;
pub mod dispatch;
pub mod error;
pub mod json;
pub mod machine;
pub mod number;
pub mod payload;
pub mod process;
pub mod results;
pub mod server;
pub mod text;
pub mod transcript;
