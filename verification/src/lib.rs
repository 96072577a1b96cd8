//! A lexical analyzer for the Axis language, with caret-annotated diagnostics.
//!
//! The scanner in [`reader`] is a cursor over decoded source text, the
//! tokenizer in [`tokenizer`] turns the text under it into positioned tokens,
//! and [`error`] renders a lexical fault as a source-framed message.

pub mod cli;
pub mod colors;
pub mod error;
pub mod lexer;
pub mod number;
pub mod reader;
pub mod text;
pub mod tokenizer;
