//! Audit events.

use vstd::prelude::*;
use crate::model::object::{uuid_text, ObjectID, VersionID};
use crate::model::tag::{timestamp_now, ActorID};

verus! {

/// What happened.
#[derive(Debug, Clone)]
pub enum EventKind {
    ObjectCreated { object_id: String, version_id: String, actor: ActorID },
    VersionAdded { object_id: String, version_id: String, parent_version: Option<String>, actor: ActorID },
    ShareIssued { resource: String, capability_cid: String, audience: String, expires_at: u64 },
    PolicyViolation { object_id: Option<String>, permission: String, reason: String },
}

/// An event and when it happened (microseconds since the Unix epoch).
#[derive(Debug, Clone)]
pub struct Event {
    pub timestamp: i64,
    pub kind: EventKind,
}

impl Event {
    /// An object was created with its first version.
    pub fn object_created(object_id: &ObjectID, version_id: &VersionID, actor: ActorID) -> (r: Event)
        ensures
            r.kind matches EventKind::ObjectCreated { object_id: o, version_id: v, actor: a }
                && o@ == uuid_text(object_id.0) && v@ == uuid_text(version_id.0) && a == actor,
    {
        Event {
            timestamp: timestamp_now(),
            kind: EventKind::ObjectCreated { object_id: object_id.to_string(), version_id: version_id.to_string(), actor },
        }
    }

    /// A version was added to an object.
    pub fn version_added(object_id: &ObjectID, version_id: &VersionID, parent_version: Option<&VersionID>, actor: ActorID) -> (r: Event)
        ensures
            r.kind matches EventKind::VersionAdded { object_id: o, version_id: v, parent_version: p, actor: a }
                && o@ == uuid_text(object_id.0) && v@ == uuid_text(version_id.0) && a == actor
                && (match parent_version {
                    Some(pv) => p matches Some(ps) && ps@ == uuid_text(pv.0),
                    None => p is None,
                }),
    {
        let parent = match parent_version {
            Some(v) => Some(v.to_string()),
            None => None,
        };
        Event {
            timestamp: timestamp_now(),
            kind: EventKind::VersionAdded {
                object_id: object_id.to_string(),
                version_id: version_id.to_string(),
                parent_version: parent,
                actor,
            },
        }
    }

    /// A capability was issued for sharing.
    pub fn share_issued(resource: String, capability_cid: String, audience: String, expires_at: u64) -> (r: Event)
        ensures
            r.kind matches EventKind::ShareIssued { resource: x, capability_cid: c, audience: a, expires_at: e }
                && x@ == resource@ && c@ == capability_cid@ && a@ == audience@ && e == expires_at,
    {
        Event { timestamp: timestamp_now(), kind: EventKind::ShareIssued { resource, capability_cid, audience, expires_at } }
    }

    /// A policy refused an operation.
    pub fn policy_violation(object_id: Option<String>, permission: String, reason: String) -> (r: Event)
        ensures
            r.kind matches EventKind::PolicyViolation { object_id: o, permission: p, reason: x }
                && o == object_id && p@ == permission@ && x@ == reason@,
    {
        Event { timestamp: timestamp_now(), kind: EventKind::PolicyViolation { object_id, permission, reason } }
    }
}

} // verus!
