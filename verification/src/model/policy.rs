//! Policies: what they allow, deny and require, and their identifiers.

use vstd::prelude::*;
use crate::crypto::capability::Permission;
use crate::model::object::{new_uuid_v7, u128_be_bytes, u128_to_be_bytes, uuid_parse, uuid_text, uuid_to_string};

verus! {

/// Policy identifier: a UUID, held as its 128-bit value.
#[derive(Debug, Clone, Copy, PartialEq, Eq, Hash, Structural)]
pub struct PolicyID(pub u128);

impl PolicyID {
    /// A fresh identifier (a time-ordered random UUID).
    pub fn new() -> (r: PolicyID) {
        PolicyID(new_uuid_v7())
    }

    /// The identifier with this UUID value.
    pub fn from_uuid(uuid: u128) -> (r: PolicyID)
        ensures
            r.0 == uuid,
    {
        PolicyID(uuid)
    }

    /// The 16 bytes of the UUID, most significant first.
    pub fn to_bytes(&self) -> (r: [u8; 16])
        ensures
            r@ == u128_be_bytes(self.0),
    {
        u128_to_be_bytes(self.0)
    }

    /// The hyphenated text of the UUID (what `Display` prints).
    pub fn to_string(&self) -> (r: String)
        ensures
            r@ == uuid_text(self.0),
            uuid_parse(r@) == Some(self.0),
    {
        uuid_to_string(self.0)
    }
}


/// A condition a policy places on an object.
#[derive(Debug, Clone)]
pub enum Requirement {
    /// Approval by every one of these names (`sys:approved-by` tags).
    ApprovalFrom(Vec<String>),
    /// A trust level of at least this much.
    MinTrust(u8),
    /// A tag under this pattern.
    RequireTag(String),
}

/// A policy: the permissions it allows (none listed: no restriction), those
/// it denies, its requirements, and whether it permits external sharing.
#[derive(Debug, Clone)]
pub struct Policy {
    pub id: PolicyID,
    pub name: String,
    pub allow: Vec<Permission>,
    pub deny: Vec<Permission>,
    pub require: Vec<Requirement>,
    pub external_share: bool,
}

impl Policy {
    /// A named policy that restricts nothing and permits no external sharing.
    pub fn new(name: String) -> (r: Policy)
        ensures
            r.name@ == name@,
            r.allow@.len() == 0,
            r.deny@.len() == 0,
            r.require@.len() == 0,
            !r.external_share,
    {
        Policy { id: PolicyID::new(), name, allow: Vec::new(), deny: Vec::new(), require: Vec::new(), external_share: false }
    }
}

} // verus!
