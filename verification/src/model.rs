//! The object model: lifecycle states, links, tags and identifiers.

pub mod state;
pub mod object;
pub mod tag;
pub mod link;
pub mod policy;
pub mod dag;
