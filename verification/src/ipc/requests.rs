//! Deciding share and fetch requests: which capability may be issued, and
//! which object version may be sent to the holder of a token.

use vstd::prelude::*;
use crate::crypto::capability::{permission_from_lower, grants, object_resource, reports, validation, Capability, Permission, Refusal, RevocationChecker};
use crate::crypto::ucan::capability_of;
use crate::crypto::identity::{did_key, PublicKey};
use crate::text::unicode_lowercase;
use crate::error::LatticeError;
use crate::model::object::{u128_be_bytes, uuid_text, ObjectID, VersionID};
use crate::model::policy::Policy;
use crate::model::tag::Tag;
use crate::policy::engine::{approvals_of, evaluate_spec, PolicyContext, PolicyEngine};
use crate::query::catalog::{failure_matches, object_id_from_bytes, uuid_from_slice, Catalog, LookupFailure};
use crate::query::lexer::{decimal_chars, push_decimal};
use crate::security::{has_executable_tag_spec, is_quarantined_executable, trust_level_of, EXECUTABLE_TRUST};
use crate::text::string_of;

verus! {

/// A fetch request: the object, optionally a version (else the current
/// one), and the capability token that grants the read.
pub struct FetchRequest {
    pub object_id: Option<Vec<u8>>,
    pub version_id: Option<Vec<u8>>,
    pub ucan_token: String,
}

/// What is sent back: the object, the version, where its manifest is, and
/// the object's tags.
pub struct FetchPlan {
    pub object_id: ObjectID,
    pub version_id: VersionID,
    pub manifest_ref: [u8; 32],
    pub tags: Vec<Tag>,
}

/// Where a fetch stops.
pub enum FetchStop {
    /// No object identifier.
    MissingObjectId,
    /// The object identifier is not 16 bytes (its length).
    BadObjectBytes(nat),
    /// The token cannot be read (the message).
    Unreadable(Seq<char>),
    /// The capability is not valid.
    Invalid(Refusal),
    /// The capability grants no read of the object.
    NoReadGrant(ObjectID),
    /// A lookup failed.
    Lookup(LookupFailure),
    /// The object's policies refuse the read.
    PolicyRefused,
    /// The object is an executable below the trust to run.
    Quarantined(ObjectID),
    /// The version identifier is not 16 bytes (its length).
    BadVersionBytes(nat),
    /// The version belongs to another object.
    WrongObject(VersionID),
}

/// Whether an object's policies allow reading it (no external share).
pub open spec fn read_allowed(policies: Seq<Policy>, tags: Seq<Tag>) -> bool {
    let e = evaluate_spec(policies, false, tags, approvals_of(tags));
    e.2 && e.0.contains(Permission::Read)
}

/// The version identifier of 16 bytes.
pub open spec fn version_of_bytes(b: Seq<u8>) -> VersionID {
    VersionID(choose|u: u128| u128_be_bytes(u) == b)
}

/// The object version a fetch serves, or where it stops, checked in order:
/// the object identifier, the token, its validity at `now`, a read grant
/// on the object, the object, its policies, quarantine, the version
/// identifier, the version, and that the version is the object's.
pub open spec fn fetch_outcome<R: RevocationChecker>(
    cat: Catalog,
    policies: Seq<Policy>,
    object_bytes: Option<Seq<u8>>,
    version_bytes: Option<Seq<u8>>,
    token: Seq<char>,
    rev: &R,
    now: u64,
) -> Result<(ObjectID, VersionID), FetchStop> {
    match object_bytes {
        None => Err(FetchStop::MissingObjectId),
        Some(ob) => if ob.len() != 16 {
            Err(FetchStop::BadObjectBytes(ob.len()))
        } else {
            let id = ObjectID(choose|u: u128| u128_be_bytes(u) == ob);
            match capability_of(token) {
                Err(m) => Err(FetchStop::Unreadable(m)),
                Ok(c) => match validation(c, now, rev, c.token.len()) {
                    Some(w) => Err(FetchStop::Invalid(w)),
                    None => if !grants(c, object_resource(id), Permission::Read) {
                        Err(FetchStop::NoReadGrant(id))
                    } else {
                        match cat.object(id) {
                            None => Err(FetchStop::Lookup(LookupFailure::ObjectMissing(id))),
                            Some(o) => if !read_allowed(policies, o.tags@) {
                                Err(FetchStop::PolicyRefused)
                            } else if has_executable_tag_spec(o.tags@) && trust_level_of(o.tags@) < EXECUTABLE_TRUST {
                                Err(FetchStop::Quarantined(id))
                            } else {
                                let vr = match version_bytes {
                                    None => Ok(o.current_version),
                                    Some(vb) => if vb.len() != 16 {
                                        Err(FetchStop::BadVersionBytes(vb.len()))
                                    } else {
                                        Ok(version_of_bytes(vb))
                                    },
                                };
                                match vr {
                                    Err(s) => Err(s),
                                    Ok(vid) => match cat.version(vid) {
                                        None => Err(FetchStop::Lookup(LookupFailure::VersionMissing(vid))),
                                        Some(v) => if v.object_id != id {
                                            Err(FetchStop::WrongObject(vid))
                                        } else {
                                            Ok((id, vid))
                                        },
                                    },
                                }
                            },
                        }
                    },
                },
            }
        },
    }
}

/// The error a stop is reported as (a failed policy check as
/// `PolicyViolation` with the engine's reasons).
pub open spec fn stop_reported(e: LatticeError, s: FetchStop) -> bool {
    match s {
        FetchStop::MissingObjectId => e matches LatticeError::Serialization(m) && m@ == "Missing object_id"@,
        FetchStop::BadObjectBytes(n) => e matches LatticeError::Serialization(m) && m@
            == "Invalid object id bytes: "@ + "invalid length: expected 16 bytes, found "@ + decimal_chars(n),
        FetchStop::Unreadable(t) => e matches LatticeError::Serialization(m) && m@ == t,
        FetchStop::Invalid(w) => reports(e, w),
        FetchStop::NoReadGrant(id) => e matches LatticeError::Unauthorized { permission, object } && permission@
            == "read"@ && object@ == uuid_text(id.0),
        FetchStop::Lookup(f) => failure_matches(e, f),
        FetchStop::PolicyRefused => e is PolicyViolation,
        FetchStop::Quarantined(id) => e matches LatticeError::Unauthorized { permission, object } && permission@
            == "read"@ && object@ == uuid_text(id.0),
        FetchStop::BadVersionBytes(n) => e matches LatticeError::Serialization(m) && m@
            == "Invalid version id bytes: "@ + "invalid length: expected 16 bytes, found "@ + decimal_chars(n),
        FetchStop::WrongObject(vid) => e matches LatticeError::VersionNotFound { id } && id@ == uuid_text(vid.0),
    }
}

/// The message for identifier bytes of the wrong length.
fn bad_length(prefix: &str, n: usize) -> (r: String)
    ensures
        r@ == prefix@ + "invalid length: expected 16 bytes, found "@ + decimal_chars(n as nat),
{
    let mut m = string_of(prefix);
    m.append("invalid length: expected 16 bytes, found ");
    push_decimal(&mut m, n as u64);
    m
}

/// A copy of tags.
fn copy_tags(tags: &Vec<Tag>) -> (r: Vec<Tag>)
    ensures
        r@ == tags@,
{
    let mut out: Vec<Tag> = Vec::new();
    let mut i: usize = 0;
    while i < tags.len()
        invariant
            i <= tags@.len(),
            out@ == tags@.take(i as int),
        decreases tags@.len() - i,
    {
        let t = &tags[i];
        let k = t.key.clone();
        let v = t.value.clone();
        out.push(Tag { key: k, value: v, created_at: t.created_at, created_by: t.created_by });
        assert(out@ =~= tags@.take(i + 1));
        i = i + 1;
    }
    assert(out@ =~= tags@);
    out
}

/// Decide a fetch at `now` (see `fetch_outcome`): the version to send and
/// its manifest, or the error of the first check that fails. The
/// policies are those the object refers to.
pub fn plan_fetch<R: RevocationChecker>(
    catalog: &Catalog,
    policies: &Vec<Policy>,
    request: &FetchRequest,
    revocations: &R,
    now: u64,
) -> (r: Result<FetchPlan, LatticeError>)
    ensures
        match fetch_outcome(
            *catalog,
            policies@,
            match request.object_id {
                Some(b) => Some(b@),
                None => None,
            },
            match request.version_id {
                Some(b) => Some(b@),
                None => None,
            },
            request.ucan_token@,
            revocations,
            now,
        ) {
            Err(s) => r matches Err(e) && stop_reported(e, s),
            Ok((id, vid)) => {
                &&& r matches Ok(p)
                &&& r->Ok_0.object_id == id
                &&& r->Ok_0.version_id == vid
                &&& catalog.version(vid) is Some
                &&& r->Ok_0.manifest_ref == catalog.version(vid)->0.manifest_ref
                &&& catalog.object(id) is Some
                &&& r->Ok_0.tags@ == catalog.object(id)->0.tags@
            },
        },
{
    let ob = match &request.object_id {
        None => return Err(LatticeError::Serialization(string_of("Missing object_id"))),
        Some(b) => b,
    };
    let object_id = match object_id_from_bytes(ob.as_slice()) {
        None => return Err(LatticeError::Serialization(bad_length("Invalid object id bytes: ", ob.len()))),
        Some(id) => id,
    };
    let capability = match Capability::parse(request.ucan_token.as_str()) {
        Ok(c) => c,
        Err(e) => return Err(e),
    };
    match capability.validate_at(now, revocations) {
        Ok(()) => {},
        Err(e) => return Err(e),
    }
    if !capability.has_permission(&object_id, Permission::Read) {
        return Err(LatticeError::Unauthorized { permission: string_of("read"), object: object_id.to_string() });
    }
    let object = match catalog.load_object(&object_id) {
        Ok(o) => o,
        Err(e) => return Err(e),
    };
    let context = PolicyContext::for_object(object);
    let engine = PolicyEngine::new();
    match engine.authorize(policies.as_slice(), &context, Permission::Read) {
        Ok(()) => {},
        Err(e) => return Err(e),
    }
    if is_quarantined_executable(object.tags.as_slice()) {
        return Err(LatticeError::Unauthorized { permission: string_of("read"), object: object_id.to_string() });
    }
    let version_id = match &request.version_id {
        None => object.current_version,
        Some(vb) => match uuid_from_slice(vb.as_slice()) {
            None => {
                return Err(LatticeError::Serialization(bad_length("Invalid version id bytes: ", vb.len())));
            },
            Some(u) => {
                proof {
                    let w = choose|w: u128| u128_be_bytes(w) == vb@;
                    crate::query::catalog::lemma_be_bytes_injective(u, w);
                }
                VersionID::from_uuid(u)
            },
        },
    };
    let version = match catalog.load_version(&version_id) {
        Ok(v) => v,
        Err(e) => return Err(e),
    };
    if version.object_id != object_id {
        return Err(LatticeError::VersionNotFound { id: version_id.to_string() });
    }
    Ok(FetchPlan {
        object_id,
        version_id,
        manifest_ref: version.manifest_ref,
        tags: copy_tags(&object.tags),
    })
}


// ---- Share requests ----

/// Where a share stops.
pub enum ShareStop {
    /// No object identifier.
    MissingObjectId,
    /// The object identifier is not 16 bytes (its length).
    BadObjectBytes(nat),
    /// The object is missing.
    Lookup(LookupFailure),
    /// The permission name is none of the five.
    UnknownPermission(Seq<char>),
    /// The object's policies refuse sharing or the permission.
    PolicyRefused,
    /// The audience's DID names no key (the message).
    BadAudience(Seq<char>),
    /// No expiry.
    MissingExpiry,
}

/// Whether an object's policies allow a permission.
pub open spec fn allowed(policies: Seq<Policy>, tags: Seq<Tag>, external: bool, p: Permission) -> bool {
    let e = evaluate_spec(policies, external, tags, approvals_of(tags));
    e.2 && e.0.contains(p)
}

/// The seconds from `now` to an expiry (both microseconds), none when it
/// has passed.
pub open spec fn seconds_until(target: i64, now: i64) -> u64 {
    if target <= now {
        0
    } else {
        ((target - now) / 1_000_000) as u64
    }
}

/// What a share grants, or where it stops, checked in order: the object
/// identifier, the object, the permission's name, the policies (sharing
/// externally, then the permission itself), the audience's DID, the
/// expiry. Granted: the object, the permission, the audience's key and
/// the seconds the grant lasts.
pub open spec fn share_outcome(
    cat: Catalog,
    policies: Seq<Policy>,
    object_bytes: Option<Seq<u8>>,
    permission_name: Seq<char>,
    audience_did: Seq<char>,
    expires_at: Option<i64>,
    now: i64,
) -> Result<(ObjectID, Permission, Seq<u8>, u64), ShareStop> {
    match object_bytes {
        None => Err(ShareStop::MissingObjectId),
        Some(ob) => if ob.len() != 16 {
            Err(ShareStop::BadObjectBytes(ob.len()))
        } else {
            let id = ObjectID(choose|u: u128| u128_be_bytes(u) == ob);
            match cat.object(id) {
                None => Err(ShareStop::Lookup(LookupFailure::ObjectMissing(id))),
                Some(o) => match permission_from_lower(unicode_lowercase(permission_name)) {
                    None => Err(ShareStop::UnknownPermission(permission_name)),
                    Some(p) => if !allowed(policies, o.tags@, true, Permission::Share) || !allowed(
                        policies,
                        o.tags@,
                        false,
                        p,
                    ) {
                        Err(ShareStop::PolicyRefused)
                    } else {
                        match did_key(audience_did) {
                            Err(m) => Err(ShareStop::BadAudience(m)),
                            Ok(k) => match expires_at {
                                None => Err(ShareStop::MissingExpiry),
                                Some(t) => Ok((id, p, k, seconds_until(t, now))),
                            },
                        }
                    },
                },
            }
        },
    }
}

/// The error a share stop is reported as.
pub open spec fn share_stop_reported(e: LatticeError, s: ShareStop) -> bool {
    match s {
        ShareStop::MissingObjectId => e matches LatticeError::Serialization(m) && m@ == "Missing object_id"@,
        ShareStop::BadObjectBytes(n) => e matches LatticeError::Serialization(m) && m@ == "Invalid object id bytes: "@
            + "invalid length: expected 16 bytes, found "@ + decimal_chars(n),
        ShareStop::Lookup(f) => failure_matches(e, f),
        ShareStop::UnknownPermission(name) => e matches LatticeError::InvalidPredicate(m) && m@
            == "Unknown permission: "@ + name,
        ShareStop::PolicyRefused => e is PolicyViolation,
        ShareStop::BadAudience(t) => e matches LatticeError::Serialization(m) && m@ == t,
        ShareStop::MissingExpiry => e matches LatticeError::Serialization(m) && m@ == "Missing expires_at"@,
    }
}

/// A share request: the object, the permission's name, the audience's
/// DID and the expiry (microseconds since the epoch).
pub struct ShareRequest {
    pub object_id: Option<Vec<u8>>,
    pub capability: String,
    pub audience_did: String,
    pub expires_at: Option<i64>,
}

/// What a share grants.
pub struct SharePlan {
    pub object_id: ObjectID,
    pub permission: Permission,
    pub audience: PublicKey,
    pub expires_in_secs: u64,
}

/// Decide a share at `now` (microseconds; see `share_outcome`). The
/// policies are those the object refers to.
pub fn plan_share(catalog: &Catalog, policies: &Vec<Policy>, request: &ShareRequest, now: i64) -> (r: Result<
    SharePlan,
    LatticeError,
>)
    ensures
        match share_outcome(
            *catalog,
            policies@,
            match request.object_id {
                Some(b) => Some(b@),
                None => None,
            },
            request.capability@,
            request.audience_did@,
            request.expires_at,
            now,
        ) {
            Err(s) => r matches Err(e) && share_stop_reported(e, s),
            Ok((id, p, k, secs)) => {
                &&& r matches Ok(plan)
                &&& r->Ok_0.object_id == id
                &&& r->Ok_0.permission == p
                &&& r->Ok_0.audience.0@ == k
                &&& r->Ok_0.expires_in_secs == secs
            },
        },
{
    let ob = match &request.object_id {
        None => return Err(LatticeError::Serialization(string_of("Missing object_id"))),
        Some(b) => b,
    };
    let object_id = match object_id_from_bytes(ob.as_slice()) {
        None => return Err(LatticeError::Serialization(bad_length("Invalid object id bytes: ", ob.len()))),
        Some(id) => id,
    };
    let object = match catalog.load_object(&object_id) {
        Ok(o) => o,
        Err(e) => return Err(e),
    };
    let permission = match Permission::from_name(request.capability.as_str()) {
        Ok(p) => p,
        Err(e) => return Err(e),
    };
    let engine = PolicyEngine::new();
    let external = PolicyContext::for_object(object).with_external_share(true);
    match engine.authorize(policies.as_slice(), &external, Permission::Share) {
        Ok(()) => {},
        Err(e) => return Err(e),
    }
    let local = PolicyContext::for_object(object);
    match engine.authorize(policies.as_slice(), &local, permission) {
        Ok(()) => {},
        Err(e) => return Err(e),
    }
    let audience = match PublicKey::from_did(request.audience_did.as_str()) {
        Ok(k) => k,
        Err(e) => return Err(e),
    };
    let target = match request.expires_at {
        None => return Err(LatticeError::Serialization(string_of("Missing expires_at"))),
        Some(t) => t,
    };
    let secs: u64 = if target <= now {
        0
    } else {
        let delta: i128 = (target as i128) - (now as i128);
        (delta / 1_000_000) as u64
    };
    Ok(SharePlan { object_id, permission, audience, expires_in_secs: secs })
}

} // verus!
