//! The command interpreter and session logic of the wallet713 command line.

pub mod amount;
pub mod base58;
pub mod command;
pub mod config;
pub mod contacts;
pub mod dispatch;
pub mod error;
pub mod hex;
pub mod keys;
pub mod laws;
pub mod number;
pub mod parser;
pub mod scan;
pub mod session;
pub mod text;
pub mod welcome;
