//! A lexical scanner for a small dynamically-typed scripting language.
//!
//! The scanner turns source text into a flat sequence of tokens that always
//! ends in a single end-of-input token, and collects every lexical error it
//! meets instead of stopping at the first one. What it produces is stated
//! against the lexical grammar in [`parser_core::grammar`], a mathematical
//! description of the language's tokens over sequences of characters.

pub mod error;
pub mod parser_core;
