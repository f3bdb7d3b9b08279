//! A lexical scanner for a small C-like scripting language.
//!
//! The scanner walks an input string once and hands out one token per call,
//! ending with a repeatable end-of-input token. Every operation is specified
//! against a mathematical model of the scan, written over the input's
//! character sequence.

pub mod chars;
pub mod laws;
pub mod lexer;
pub mod scan;
pub mod token;
