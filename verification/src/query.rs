//! LQL, the LatticeFS query language: tokens, syntax tree and parser.

pub mod ast;
pub mod catalog;
pub mod lexer;
pub mod parser;
pub mod display;
pub mod evaluator;
pub mod explain;
