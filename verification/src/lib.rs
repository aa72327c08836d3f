//! A tokenizer for a small line-terminated language.
//!
//! Source text is scanned into an ordered sequence of typed tokens. Every
//! scanned unit has to end in a strict (`!`) or debug (`?`) end-of-line marker.

pub mod chars;
pub mod lexer;
pub mod token;
