//! Lexical front end of a small scripting language: a store of logical
//! source lines, a character cursor over them, and a tokenizer.

pub mod ast1;
pub mod cursor;
pub mod lexer;
pub mod text;
pub mod line_map;
