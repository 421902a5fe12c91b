//! A line filter for plain-text database dumps.
pub mod bytes;
pub mod text;
pub mod config;
pub mod state;
pub mod filter;
pub mod laws;
