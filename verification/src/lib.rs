//! A read-eval-print pipeline for a tiny C-like language of integer literals
//! and statement terminators: a lexer, a parser and an interpreter, each a
//! function of its input alone.

pub mod decimal;
pub mod engine;
pub mod interp;
pub mod laws;
pub mod lexer;
pub mod parser;
pub mod pipeline;
pub mod words;
