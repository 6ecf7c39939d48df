pub mod commands;
pub mod config;
pub mod conn;
pub mod engine;
pub mod errors;
pub mod json;
pub mod opcodes;
pub mod query;
pub mod term;
