//! Verified reader for a line-oriented OpenVPN client configuration.
pub mod text;
pub mod number;
pub mod config;
pub mod parser;
pub mod laws;
pub mod canonical;
pub mod rewriting;
