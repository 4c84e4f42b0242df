//! Tokenizer for textual dice expressions such as `2d6+3*d20adv`.
//!
//! The entry point is [`lexer::lex`], which turns a complete input string
//! into an ordered sequence of typed tokens or a single error.

pub mod lexer;
