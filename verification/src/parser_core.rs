//! The token data model, the lexical grammar and the scanner that follows it.

pub mod grammar;
pub mod scanner;
pub mod text;
pub mod token;
