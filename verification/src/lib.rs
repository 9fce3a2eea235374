//! The front end of a small scripting language: a tokenizer that turns source text
//! into tokens with their spans, and a recursive-descent parser that turns the
//! tokens into a tree of statements and expressions. Every error is a value
//! that says what went wrong and where; `error::report` draws it up for
//! display.
//!
//! Each function states what it computes over a model of the text or of the
//! tokens: `lexer::rules` defines the tokens of a text, `parser::grammar` the
//! tree of a token sequence, and `parser::laws` proves what holds of every tree.

pub mod error;
pub mod lexer;
pub mod parser;
