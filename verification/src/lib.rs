//! LatticeFS core library: content-defined chunking, the object model,
//! the LQL query language (lexer, parser, AST), policy evaluation and
//! the small pure helpers around them, with their behaviour stated in
//! Verus contracts.

pub mod text;
pub mod model;
pub mod storage;
pub mod error;
pub mod query;
pub mod security;
pub mod crypto;
pub mod config;
pub mod views;
pub mod policy;
pub mod events;
pub mod fuse;
pub mod ipc;
pub mod watcher;
pub mod repo;
pub mod import;
