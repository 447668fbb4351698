//! Capabilities and object encryption.

pub mod capability;
pub mod identity;
pub mod encryption;
pub mod json;
pub mod keyring;
pub mod ucan;
