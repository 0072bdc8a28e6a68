//! A lexer for a Lua-like language.
//!
//! The grammar is stated once, as functions on a sequence of characters
//! (`grammar`), and the executable scanner (`tokenizer`) is proved to return
//! exactly what the grammar describes. `laws` holds what follows from the
//! grammar for every text.

pub mod position;
pub mod cursor;
pub mod token;
pub mod error;
pub mod grammar;
pub mod outcome;
pub mod brackets;
pub mod trivia;
pub mod names;
pub mod numbers;
pub mod strings;
pub mod operators;
pub mod tokenizer;
pub mod stream;
pub mod laws;
