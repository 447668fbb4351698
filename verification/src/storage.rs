//! Content-addressed storage: chunking, hashing and chunk manifests.

pub mod chunks;
pub mod content;
