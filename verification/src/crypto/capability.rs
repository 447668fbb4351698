//! Capability grants: permission levels, resource attenuations and the
//! UCAN header.

use vstd::prelude::*;
use crate::error::LatticeError;
use crate::model::object::{new_uuid_v7, parse_uuid, uuid_parse, uuid_to_string, uuid_text, ObjectID};
use crate::text::{join_strings, joined, starts_with, str_eq, string_of, string_views, to_lowercase, unicode_lowercase};
use crate::crypto::identity::{did_key, did_text, ed25519_signature, ed25519_verifies, public_key_from_did, Identity, PublicKey};
use crate::crypto::ucan::{capability_of, cid_text, dot_segments, parse_token, revocation_json, revocation_json_text, seal, sealed_token, signing_text, split_dots, token_cid};
use std::time::Duration;
use vstd::utf8::encode_utf8;

verus! {

/// Resource URI prefix of an object.
pub open spec fn object_prefix() -> Seq<char> {
    "latticefs:object:"@
}

/// A permission; each level includes the ones before it.
#[derive(Debug, Clone, Copy, PartialEq, Eq, PartialOrd, Ord, Hash, Structural)]
pub enum Permission {
    /// Read object content and metadata.
    Read,
    /// Add comments.
    Comment,
    /// Create new versions, modify metadata.
    Write,
    /// Create new capabilities for the object.
    Share,
    /// Full control, policy changes included.
    Admin,
}

/// The numeric level of a permission, from 1 (read) to 5 (admin).
pub open spec fn permission_level(p: Permission) -> u8 {
    match p {
        Permission::Read => 1,
        Permission::Comment => 2,
        Permission::Write => 3,
        Permission::Share => 4,
        Permission::Admin => 5,
    }
}

/// The printed name of a permission.
pub open spec fn permission_name(p: Permission) -> Seq<char> {
    match p {
        Permission::Read => "read"@,
        Permission::Comment => "comment"@,
        Permission::Write => "write"@,
        Permission::Share => "share"@,
        Permission::Admin => "admin"@,
    }
}

/// The permission named by an already lowercased name.
pub open spec fn permission_from_lower(lower: Seq<char>) -> Option<Permission> {
    if lower == "read"@ {
        Some(Permission::Read)
    } else if lower == "comment"@ {
        Some(Permission::Comment)
    } else if lower == "write"@ {
        Some(Permission::Write)
    } else if lower == "share"@ {
        Some(Permission::Share)
    } else if lower == "admin"@ {
        Some(Permission::Admin)
    } else {
        None
    }
}

impl Permission {
    /// Whether this permission includes `other` (it is at least as high).
    pub fn includes(&self, other: &Permission) -> (r: bool)
        ensures
            r == (permission_level(*self) >= permission_level(*other)),
    {
        self.level() >= other.level()
    }

    /// The numeric level: read 1, comment 2, write 3, share 4, admin 5.
    pub fn level(&self) -> (r: u8)
        ensures
            r == permission_level(*self),
    {
        match self {
            Permission::Read => 1,
            Permission::Comment => 2,
            Permission::Write => 3,
            Permission::Share => 4,
            Permission::Admin => 5,
        }
    }

    /// The lowercase name (what `Display` prints).
    pub fn to_string(&self) -> (r: String)
        ensures
            r@ == permission_name(*self),
    {
        match self {
            Permission::Read => string_of("read"),
            Permission::Comment => string_of("comment"),
            Permission::Write => string_of("write"),
            Permission::Share => string_of("share"),
            Permission::Admin => string_of("admin"),
        }
    }

    /// Parse a permission name, ignoring case.
    pub fn from_name(s: &str) -> (r: Result<Permission, LatticeError>)
        ensures
            permission_from_lower(unicode_lowercase(s@)) matches Some(p) ==> r == Ok::<Permission, LatticeError>(p),
            permission_from_lower(unicode_lowercase(s@)) is None ==> (r matches Err(LatticeError::InvalidPredicate(m))
                && m@ == "Unknown permission: "@ + s@),
    {
        let lower = to_lowercase(s);
        let lc = lower.as_str();
        if str_eq(lc, "read") {
            Ok(Permission::Read)
        } else if str_eq(lc, "comment") {
            Ok(Permission::Comment)
        } else if str_eq(lc, "write") {
            Ok(Permission::Write)
        } else if str_eq(lc, "share") {
            Ok(Permission::Share)
        } else if str_eq(lc, "admin") {
            Ok(Permission::Admin)
        } else {
            let mut msg = string_of("Unknown permission: ");
            msg.append(s);
            Err(LatticeError::InvalidPredicate(msg))
        }
    }
}

impl std::str::FromStr for Permission {
    type Err = LatticeError;

    fn from_str(s: &str) -> Result<Permission, LatticeError> {
        Permission::from_name(s)
    }
}

/// Inclusion of permissions is a total order: reflexive, transitive, and any
/// two permissions are comparable.
pub proof fn lemma_includes_order(a: Permission, b: Permission, c: Permission)
    ensures
        permission_level(a) >= permission_level(a),
        permission_level(a) >= permission_level(b) && permission_level(b) >= permission_level(c)
            ==> permission_level(a) >= permission_level(c),
        permission_level(a) >= permission_level(b) || permission_level(b) >= permission_level(a),
        permission_level(a) >= permission_level(b) && permission_level(b) >= permission_level(a) ==> a == b,
{
}

/// Parsing the printed name of a permission gives it back.
pub proof fn lemma_permission_name_roundtrip(p: Permission)
    ensures
        permission_from_lower(permission_name(p)) == Some(p),
{
    reveal_strlit("read");
    reveal_strlit("comment");
    reveal_strlit("write");
    reveal_strlit("share");
    reveal_strlit("admin");
    assert("read"@[0] != "comment"@[0] && "read"@[0] != "write"@[0] && "read"@[0] != "share"@[0]
        && "read"@[0] != "admin"@[0]);
    assert("comment"@[0] != "write"@[0] && "comment"@[0] != "share"@[0] && "comment"@[0] != "admin"@[0]);
    assert("write"@[0] != "share"@[0] && "write"@[0] != "admin"@[0] && "share"@[0] != "admin"@[0]);
}

/// UCAN header (the version written is 0.10.0).
#[derive(Debug, Clone)]
pub struct UcanHeader {
    /// Algorithm (always `EdDSA`).
    pub alg: String,
    /// Type (always `JWT`).
    pub typ: String,
    /// UCAN version.
    pub ucv: String,
}

impl Default for UcanHeader {
    fn default() -> (r: UcanHeader)
        ensures
            r.alg@ == "EdDSA"@,
            r.typ@ == "JWT"@,
            r.ucv@ == "0.10.0"@,
    {
        UcanHeader { alg: string_of("EdDSA"), typ: string_of("JWT"), ucv: string_of("0.10.0") }
    }
}

/// A capability grant: a permission on a resource.
#[derive(Debug, Clone)]
pub struct Attenuation {
    /// Resource URI.
    pub with: String,
    /// Permission granted.
    pub can: Permission,
}

/// The resource URI of an object.
pub open spec fn object_resource(id: ObjectID) -> Seq<char> {
    object_prefix() + uuid_text(id.0)
}

impl Attenuation {
    /// A grant on an object: the resource `latticefs:object:<uuid>`.
    pub fn for_object(object_id: &ObjectID, permission: Permission) -> (r: Attenuation)
        ensures
            r.with@ == object_resource(*object_id),
            uuid_parse(r.with@.skip(object_prefix().len() as int)) == Some(object_id.0),
            r.can == permission,
    {
        let mut with = string_of("latticefs:object:");
        let id = object_id.to_string();
        with.append(id.as_str());
        assert(with@.skip(object_prefix().len() as int) =~= id@);
        Attenuation { with, can: permission }
    }

    /// A grant on any resource URI.
    pub fn for_resource(resource: String, permission: Permission) -> (r: Attenuation)
        ensures
            r.with@ == resource@,
            r.can == permission,
    {
        Attenuation { with: resource, can: permission }
    }

    /// The object the resource URI names: the UUID after
    /// `latticefs:object:`, when it parses.
    pub fn object_id(&self) -> (r: Option<ObjectID>)
        ensures
            !object_prefix().is_prefix_of(self.with@) ==> r is None,
            object_prefix().is_prefix_of(self.with@) ==> r == (match uuid_parse(
                self.with@.skip(object_prefix().len() as int),
            ) {
                Some(u) => Some(ObjectID(u)),
                None => None,
            }),
    {
        let w = self.with.as_str();
        if !starts_with(w, "latticefs:object:") {
            return None;
        }
        proof {
            reveal_strlit("latticefs:object:");
        }
        let n = w.unicode_len();
        let rest = w.substring_char(17, n);
        match parse_uuid(rest) {
            Some(u) => Some(ObjectID::from_uuid(u)),
            None => None,
        }
    }
}

/// A grant made for an object names that object again.
pub proof fn lemma_object_grant_roundtrip(id: ObjectID, text: Seq<char>)
    requires
        uuid_parse(text) == Some(id.0),
    ensures
        object_prefix().is_prefix_of(object_prefix() + text),
        (object_prefix() + text).skip(object_prefix().len() as int) == text,
{
    assert((object_prefix() + text).skip(object_prefix().len() as int) =~= text);
    assert(object_prefix().is_prefix_of(object_prefix() + text));
}


/// The deepest proof chain a capability may have below it.
pub const MAX_PROOF_CHAIN_DEPTH: usize = 10;

/// The UCAN version written in headers.
pub open spec fn ucan_version() -> Seq<char> {
    "0.10.0"@
}

/// Contextual facts of a grant. Further facts are kept as their key and the
/// JSON text of their value, in order.
#[derive(Debug, Clone)]
pub struct Facts {
    /// LatticeFS version.
    pub version: Option<String>,
    /// Device binding.
    pub device: Option<String>,
    /// Further facts: key and JSON text of the value.
    pub custom: Vec<(String, String)>,
}

impl Default for Facts {
    fn default() -> (r: Facts)
        ensures
            r.version is None,
            r.device is None,
            r.custom@.len() == 0,
    {
        Facts { version: None, device: None, custom: Vec::new() }
    }
}

/// The claims of a UCAN token.
#[derive(Debug, Clone)]
pub struct UcanPayload {
    /// Issuer DID.
    pub iss: String,
    /// Audience DID.
    pub aud: String,
    /// Subject.
    pub sub: Option<String>,
    /// Expiration time (Unix seconds).
    pub exp: u64,
    /// Not-before time (Unix seconds).
    pub nbf: Option<u64>,
    /// Nonce against replay.
    pub nnc: Option<String>,
    /// The grants.
    pub att: Vec<Attenuation>,
    /// The proof chain: the tokens this one is delegated from.
    pub prf: Vec<String>,
    /// Contextual facts.
    pub fct: Option<Facts>,
}

/// A UCAN capability token with its parsed parts.
#[derive(Debug, Clone)]
pub struct Capability {
    /// The token text: three base64url parts joined by dots.
    pub token: String,
    /// The parsed header.
    pub header: UcanHeader,
    /// The parsed payload.
    pub payload: UcanPayload,
    /// The signature bytes.
    pub signature: Vec<u8>,
}

// ---- Models ----

/// A header as text.
pub struct HeaderView {
    pub alg: Seq<char>,
    pub typ: Seq<char>,
    pub ucv: Seq<char>,
}

/// A grant as text.
pub struct GrantView {
    pub with: Seq<char>,
    pub can: Permission,
}

/// Facts as text.
pub struct FactsView {
    pub version: Option<Seq<char>>,
    pub device: Option<Seq<char>>,
    pub custom: Seq<(Seq<char>, Seq<char>)>,
}

/// A payload as text.
pub struct PayloadView {
    pub iss: Seq<char>,
    pub aud: Seq<char>,
    pub sub: Option<Seq<char>>,
    pub exp: u64,
    pub nbf: Option<u64>,
    pub nnc: Option<Seq<char>>,
    pub att: Seq<GrantView>,
    pub prf: Seq<Seq<char>>,
    pub fct: Option<FactsView>,
}

/// A capability as text and bytes.
pub struct CapabilityView {
    pub token: Seq<char>,
    pub header: HeaderView,
    pub payload: PayloadView,
    pub signature: Seq<u8>,
}

/// The text of an optional string.
pub open spec fn opt_text(o: Option<String>) -> Option<Seq<char>> {
    match o {
        Some(s) => Some(s@),
        None => None,
    }
}

impl View for UcanHeader {
    type V = HeaderView;

    open spec fn view(&self) -> HeaderView {
        HeaderView { alg: self.alg@, typ: self.typ@, ucv: self.ucv@ }
    }
}

impl View for Attenuation {
    type V = GrantView;

    open spec fn view(&self) -> GrantView {
        GrantView { with: self.with@, can: self.can }
    }
}

impl View for Facts {
    type V = FactsView;

    open spec fn view(&self) -> FactsView {
        FactsView {
            version: opt_text(self.version),
            device: opt_text(self.device),
            custom: self.custom@.map_values(|e: (String, String)| (e.0@, e.1@)),
        }
    }
}

impl View for UcanPayload {
    type V = PayloadView;

    open spec fn view(&self) -> PayloadView {
        PayloadView {
            iss: self.iss@,
            aud: self.aud@,
            sub: opt_text(self.sub),
            exp: self.exp,
            nbf: self.nbf,
            nnc: opt_text(self.nnc),
            att: self.att@.map_values(|a: Attenuation| a@),
            prf: self.prf@.map_values(|t: String| t@),
            fct: match self.fct {
                Some(f) => Some(f@),
                None => None,
            },
        }
    }
}

impl View for Capability {
    type V = CapabilityView;

    open spec fn view(&self) -> CapabilityView {
        CapabilityView {
            token: self.token@,
            header: self.header@,
            payload: self.payload@,
            signature: self.signature@,
        }
    }
}

/// Why a capability is refused.
pub enum Refusal {
    /// Malformed data, with its message.
    Malformed(Seq<char>),
    /// The signature does not verify.
    BadSignature,
    /// The capability has expired.
    Expired,
    /// The capability is not valid yet.
    NotYetValid,
    /// The capability was revoked.
    Revoked,
    /// The revocation check failed.
    RevocationCheckFailed,
    /// The proof chain is too deep.
    ChainTooDeep,
    /// The issuer is not the audience of a proof.
    NotAudienceOfProof,
    /// A grant is wider than the proof allows: the proof's grants and the
    /// first grant they do not cover.
    WiderThanProof(Seq<GrantView>, GrantView),
    /// The delegator is not the capability's audience.
    DelegatorNotAudience,
    /// A held permission does not include the one asked for.
    Escalation(Permission, Permission),
    /// The revoker is neither the issuer nor an admin's audience.
    RevokerUnauthorized,
    /// The capability names no object.
    MissingSubject,
    /// The admin capability grants no admin permission on the object.
    NotAdmin(ObjectID),
    /// A revocation's signature does not verify.
    BadRevocationSignature,
}

/// The error a refusal is reported as. A failed revocation check passes on
/// the checker's own error; a grant wider than its proof is
/// `InvalidAttenuation` with the texts of the proof's grants and of the
/// uncovered grant.
pub open spec fn reports(e: LatticeError, why: Refusal) -> bool {
    match why {
        Refusal::Malformed(m) => e matches LatticeError::Serialization(s) && s@ == m,
        Refusal::BadSignature => e is InvalidSignature,
        Refusal::Expired => e is CapabilityExpired,
        Refusal::NotYetValid => e is CapabilityNotYetValid,
        Refusal::Revoked => e is CapabilityRevoked,
        Refusal::RevocationCheckFailed => true,
        Refusal::ChainTooDeep => e matches LatticeError::InvalidProofChain(s) && s@
            == "Proof chain too deep: max 10 levels"@,
        Refusal::NotAudienceOfProof => e matches LatticeError::InvalidProofChain(s) && s@
            == "Issuer is not the audience of proof"@,
        Refusal::WiderThanProof(ps, g) => e matches LatticeError::InvalidAttenuation { from, to } && from@
            == grants_text(ps) && to@ == grant_text(g),
        Refusal::DelegatorNotAudience => e matches LatticeError::Unauthorized { permission, object }
            && permission@ == "delegate"@ && object@ == "capability"@,
        Refusal::Escalation(held, asked) => e matches LatticeError::InvalidAttenuation { from, to } && from@
            == permission_name(held) && to@ == permission_name(asked),
        Refusal::RevokerUnauthorized => e matches LatticeError::Unauthorized { permission, object }
            && permission@ == "revoke"@ && object@ == "capability"@,
        Refusal::MissingSubject => e matches LatticeError::InvalidPredicate(m) && m@
            == "Capability missing object subject"@,
        Refusal::NotAdmin(id) => e matches LatticeError::Unauthorized { permission, object } && permission@
            == "admin"@ && object@ == uuid_text(id.0),
        Refusal::BadRevocationSignature => e is InvalidRevocationSignature,
    }
}

/// Answers whether a capability (by its content identifier) was revoked.
pub trait RevocationChecker {
    /// The answer for a content identifier: whether it is revoked, or
    /// `None` when the check fails.
    spec fn revocation_answer(&self, cid: Seq<char>) -> Option<bool>;

    /// Whether the capability with this content identifier was revoked.
    fn is_revoked(&self, cid: &str) -> (r: Result<bool, LatticeError>)
        ensures
            match self.revocation_answer(cid@) {
                Some(b) => r == Ok::<bool, LatticeError>(b),
                None => r is Err,
            },
    ;
}


// ---- Validity ----

/// The signed text of a token: its first two segments joined by a dot.
pub open spec fn signed_text(token: Seq<char>) -> Seq<char> {
    let s = dot_segments(token);
    s[0] + "."@ + s[1]
}

/// A capability whose signature check does not stop short: its token has
/// the two segments the signature covers, or its issuer's DID is refused
/// before the token is split.
pub open spec fn signable(c: CapabilityView) -> bool {
    dot_segments(c.token).len() >= 2 || did_key(c.payload.iss) is Err
}

/// Why the signature of a capability fails: the issuer's DID names no key,
/// the signature is not 64 bytes, or it does not verify over the signed
/// text under the issuer's key.
pub open spec fn signature_refusal(c: CapabilityView) -> Option<Refusal> {
    match did_key(c.payload.iss) {
        Err(m) => Some(Refusal::Malformed(m)),
        Ok(k) => if c.signature.len() != 64 {
            Some(Refusal::BadSignature)
        } else if ed25519_verifies(k, encode_utf8(signed_text(c.token)), c.signature) {
            None
        } else {
            Some(Refusal::BadSignature)
        },
    }
}

/// Why a capability is not valid at a time: expired at or after `exp`,
/// not yet valid before `nbf`.
pub open spec fn window_refusal(c: CapabilityView, now: u64) -> Option<Refusal> {
    if now >= c.payload.exp {
        Some(Refusal::Expired)
    } else {
        match c.payload.nbf {
            Some(n) => if now < n {
                Some(Refusal::NotYetValid)
            } else {
                None
            },
            None => None,
        }
    }
}

/// Why a capability fails its own checks: signature, time window, then
/// revocation of its content identifier.
pub open spec fn own_refusal<R: RevocationChecker>(c: CapabilityView, now: u64, rev: &R) -> Option<Refusal> {
    match signature_refusal(c) {
        Some(w) => Some(w),
        None => match window_refusal(c, now) {
            Some(w) => Some(w),
            None => match rev.revocation_answer(cid_text(c.token)) {
                None => Some(Refusal::RevocationCheckFailed),
                Some(true) => Some(Refusal::Revoked),
                Some(false) => None,
            },
        },
    }
}

/// Whether some grant of a list covers a grant: same resource, at least the
/// same permission.
pub open spec fn covered(grants: Seq<GrantView>, g: GrantView) -> bool {
    exists|k: int| 0 <= k < grants.len() && grants[k].with == g.with && permission_level(grants[k].can) >= permission_level(g.can)
}

/// Why a capability may not rest on a proof: its issuer is not the proof's
/// audience, or one of its grants is not covered by the proof's grants.
pub open spec fn link_refusal(c: CapabilityView, p: CapabilityView) -> Option<Refusal> {
    if c.payload.iss != p.payload.aud {
        Some(Refusal::NotAudienceOfProof)
    } else {
        match uncovered_grant(p.payload.att, c.payload.att) {
            Some(g) => Some(Refusal::WiderThanProof(p.payload.att, g)),
            None => None,
        }
    }
}

/// The first of `gs` that `ps` does not cover, if any.
pub open spec fn uncovered_grant(ps: Seq<GrantView>, gs: Seq<GrantView>) -> Option<GrantView>
    decreases gs.len(),
{
    if gs.len() == 0 {
        None
    } else if !covered(ps, gs[0]) {
        Some(gs[0])
    } else {
        uncovered_grant(ps, gs.skip(1))
    }
}

/// Why a capability is not valid: its own checks, then its proof chain.
/// `fuel` bounds how deep proofs are read (see `Capability::validate_at`).
pub open spec fn validation<R: RevocationChecker>(c: CapabilityView, now: u64, rev: &R, fuel: nat) -> Option<Refusal>
    decreases fuel, 2nat, 0nat,
{
    match own_refusal(c, now, rev) {
        Some(w) => Some(w),
        None => chain_refusal(c, now, rev, 0, fuel),
    }
}

/// Why the proof chain of a capability, at a depth, fails: too deep, or a
/// proof fails.
pub open spec fn chain_refusal<R: RevocationChecker>(c: CapabilityView, now: u64, rev: &R, depth: nat, fuel: nat) -> Option<Refusal>
    decreases fuel, 1nat, 0nat,
{
    if depth > 10 {
        Some(Refusal::ChainTooDeep)
    } else {
        proofs_refusal(c, now, rev, depth, fuel, 0)
    }
}

/// Why the proofs of a capability from the `i`-th on fail: each is read,
/// validated, checked as a link, and its own chain followed one level
/// deeper.
pub open spec fn proofs_refusal<R: RevocationChecker>(
    c: CapabilityView,
    now: u64,
    rev: &R,
    depth: nat,
    fuel: nat,
    i: nat,
) -> Option<Refusal>
    decreases fuel, 0nat, c.payload.prf.len() - i,
{
    if i >= c.payload.prf.len() {
        None
    } else if fuel == 0 {
        Some(Refusal::ChainTooDeep)
    } else {
        match capability_of(c.payload.prf[i as int]) {
            Err(m) => Some(Refusal::Malformed(m)),
            Ok(p) => match validation(p, now, rev, (fuel - 1) as nat) {
                Some(w) => Some(w),
                None => match link_refusal(c, p) {
                    Some(w) => Some(w),
                    None => match chain_refusal(p, now, rev, depth + 1, (fuel - 1) as nat) {
                        Some(w) => Some(w),
                        None => proofs_refusal(c, now, rev, depth, fuel, i + 1),
                    },
                },
            },
        }
    }
}

/// A result agrees with a refusal, or with none.
pub open spec fn outcome(r: Result<(), LatticeError>, why: Option<Refusal>) -> bool {
    match why {
        None => r is Ok,
        Some(w) => r matches Err(e) && reports(e, w),
    }
}

/// The seconds since the Unix epoch by the system clock (0 before the
/// epoch). Nothing is claimed of the value.
#[verifier::external_body]
fn unix_seconds() -> (r: u64) {
    match std::time::SystemTime::now().duration_since(std::time::UNIX_EPOCH) {
        Ok(d) => d.as_secs(),
        Err(_) => 0,
    }
}

impl Capability {
    /// Read a token (see `capability_of`); `Serialization` with the reason
    /// when it cannot be read.
    pub fn parse(token: &str) -> (r: Result<Capability, LatticeError>)
        ensures
            match capability_of(token@) {
                Ok(c) => r matches Ok(x) && x@ == c,
                Err(m) => r matches Err(LatticeError::Serialization(e)) && e@ == m,
            },
    {
        parse_token(token)
    }

    /// The content identifier: the hex BLAKE3 hash of the token.
    pub fn cid(&self) -> (r: String)
        ensures
            r@ == cid_text(self.token@),
    {
        token_cid(self.token.as_str())
    }

    /// Check the signature over the first two segments of the token under
    /// the issuer's key (see `signature_refusal`).
    pub fn verify_signature(&self) -> (r: Result<(), LatticeError>)
        requires
            signable(self@),
        ensures
            outcome(r, signature_refusal(self@)),
    {
        let key = match public_key_from_did(self.payload.iss.as_str()) {
            Ok(k) => k,
            Err(e) => return Err(e),
        };
        let parts = split_dots(self.token.as_str());
        assert(parts@[0]@ == dot_segments(self.token@)[0]);
        assert(parts@[1]@ == dot_segments(self.token@)[1]);
        let mut input = parts[0].clone();
        input.append(".");
        input.append(parts[1].as_str());
        assert(input@ == signed_text(self.token@));
        if self.signature.len() != 64 {
            return Err(LatticeError::InvalidSignature);
        }
        let mut sig = [0u8; 64];
        let mut i: usize = 0;
        while i < 64
            invariant
                i <= 64,
                self.signature@.len() == 64,
                forall|k: int| 0 <= k < i ==> sig@[k] == self.signature@[k],
            decreases 64 - i,
        {
            sig[i] = self.signature[i];
            i = i + 1;
        }
        assert(sig@ =~= self.signature@);
        key.verify(input.as_str().as_bytes(), &sig)
    }

    /// Check the time window at `now` (see `window_refusal`).
    pub fn check_window(&self, now: u64) -> (r: Result<(), LatticeError>)
        ensures
            outcome(r, window_refusal(self@, now)),
    {
        if now >= self.payload.exp {
            return Err(LatticeError::CapabilityExpired);
        }
        match self.payload.nbf {
            Some(n) => {
                if now < n {
                    return Err(LatticeError::CapabilityNotYetValid);
                }
            },
            None => {},
        }
        Ok(())
    }

    /// Check that this capability may rest on a proof (see `link_refusal`).
    pub fn check_link(&self, proof: &Capability) -> (r: Result<(), LatticeError>)
        ensures
            outcome(r, link_refusal(self@, proof@)),
    {
        if !str_eq(self.payload.iss.as_str(), proof.payload.aud.as_str()) {
            return Err(LatticeError::InvalidProofChain(string_of("Issuer is not the audience of proof")));
        }
        let ghost cv = self@;
        let ghost pv = proof@;
        assert(cv.payload.att.skip(0) =~= cv.payload.att);
        let mut j: usize = 0;
        while j < self.payload.att.len()
            invariant
                j <= self.payload.att@.len(),
                cv == self@,
                pv == proof@,
                cv.payload.iss == pv.payload.aud,
                uncovered_grant(pv.payload.att, cv.payload.att) == uncovered_grant(pv.payload.att, cv.payload.att.skip(j as int)),
            decreases self.payload.att@.len() - j,
        {
            let att = &self.payload.att[j];
            let mut found = false;
            let mut k: usize = 0;
            while k < proof.payload.att.len()
                invariant
                    k <= proof.payload.att@.len(),
                    pv == proof@,
                    att@ == cv.payload.att[j as int],
                    found ==> covered(pv.payload.att, att@),
                    !found ==> forall|q: int| 0 <= q < k ==> !(pv.payload.att[q].with == att@.with && permission_level(
                        #[trigger] pv.payload.att[q].can,
                    ) >= permission_level(att@.can)),
                decreases proof.payload.att@.len() - k,
            {
                let p = &proof.payload.att[k];
                assert(pv.payload.att[k as int] == p@);
                if !found && str_eq(p.with.as_str(), att.with.as_str()) && p.can.includes(&att.can) {
                    found = true;
                }
                k = k + 1;
            }
            if !found {
                assert(!covered(pv.payload.att, cv.payload.att[j as int]));
                assert(cv.payload.att.skip(j as int)[0] == cv.payload.att[j as int]);
                assert(cv.payload.iss == pv.payload.aud);
                return Err(LatticeError::InvalidAttenuation {
                    from: attenuations_text(&proof.payload.att),
                    to: attenuation_text(att),
                });
            }
            assert(cv.payload.att.skip(j as int)[0] == cv.payload.att[j as int]);
            assert(cv.payload.att.skip(j as int).skip(1) =~= cv.payload.att.skip(j + 1));
            j = j + 1;
        }
        assert(cv.payload.att.skip(j as int).len() == 0);
        Ok(())
    }

    /// Validate at `now`: the capability's own checks, then its proof
    /// chain, each proof read from its token (see `validation`). Proofs
    /// are read at most as many levels deep as the token has characters;
    /// since each proof is carried inside the token of the one above it,
    /// no token reaches that depth, and a deeper one is refused as too deep.
    pub fn validate_at<R: RevocationChecker>(&self, now: u64, revocations: &R) -> (r: Result<(), LatticeError>)
        requires
            signable(self@),
        ensures
            outcome(r, validation(self@, now, revocations, self.token@.len())),
    {
        let fuel = self.token.as_str().unicode_len();
        self.validate_within(now, revocations, fuel)
    }

    /// Validate with the clock's current time.
    pub fn validate<R: RevocationChecker>(&self, revocations: &R) -> (r: Result<(), LatticeError>)
        requires
            signable(self@),
        ensures
            exists|now: u64| outcome(r, validation(self@, now, revocations, self.token@.len())),
    {
        let now = unix_seconds();
        self.validate_at(now, revocations)
    }

    fn validate_within<R: RevocationChecker>(&self, now: u64, revocations: &R, fuel: usize) -> (r: Result<(), LatticeError>)
        requires
            signable(self@),
        ensures
            outcome(r, validation(self@, now, revocations, fuel as nat)),
        decreases fuel, 2nat, 0nat,
    {
        match self.verify_signature() {
            Ok(()) => {},
            Err(e) => return Err(e),
        }
        match self.check_window(now) {
            Ok(()) => {},
            Err(e) => return Err(e),
        }
        let cid = self.cid();
        match revocations.is_revoked(cid.as_str()) {
            Ok(true) => return Err(LatticeError::CapabilityRevoked),
            Ok(false) => {},
            Err(e) => return Err(e),
        }
        self.verify_proof_chain(0, now, revocations, fuel)
    }

    fn verify_proof_chain<R: RevocationChecker>(&self, depth: usize, now: u64, revocations: &R, fuel: usize) -> (r: Result<(), LatticeError>)
        requires
            depth <= 11,
        ensures
            outcome(r, chain_refusal(self@, now, revocations, depth as nat, fuel as nat)),
        decreases fuel, 1nat, 0nat,
    {
        if depth > MAX_PROOF_CHAIN_DEPTH {
            return Err(LatticeError::InvalidProofChain(string_of("Proof chain too deep: max 10 levels")));
        }
        let ghost cv = self@;
        let mut i: usize = 0;
        while i < self.payload.prf.len()
            invariant
                i <= self.payload.prf@.len(),
                depth <= 10,
                cv == self@,
                proofs_refusal(cv, now, revocations, depth as nat, fuel as nat, 0)
                    == proofs_refusal(cv, now, revocations, depth as nat, fuel as nat, i as nat),
            decreases self.payload.prf@.len() - i,
        {
            if fuel == 0 {
                return Err(LatticeError::InvalidProofChain(string_of("Proof chain too deep: max 10 levels")));
            }
            assert(cv.payload.prf[i as int] == self.payload.prf@[i as int]@);
            let proof = match parse_token(self.payload.prf[i].as_str()) {
                Ok(p) => p,
                Err(e) => return Err(e),
            };
            match proof.validate_within(now, revocations, fuel - 1) {
                Ok(()) => {},
                Err(e) => return Err(e),
            }
            match self.check_link(&proof) {
                Ok(()) => {},
                Err(e) => return Err(e),
            }
            match proof.verify_proof_chain(depth + 1, now, revocations, fuel - 1) {
                Ok(()) => {},
                Err(e) => return Err(e),
            }
            i = i + 1;
        }
        Ok(())
    }
}

/// A permission's variant name, as grant listings write it.
pub open spec fn permission_label(p: Permission) -> Seq<char> {
    match p {
        Permission::Read => "Read"@,
        Permission::Comment => "Comment"@,
        Permission::Write => "Write"@,
        Permission::Share => "Share"@,
        Permission::Admin => "Admin"@,
    }
}

/// The text of a grant: `Attenuation { with: "<uri>", can: <Permission> }`
/// (the URI written as it is).
pub open spec fn grant_text(g: GrantView) -> Seq<char> {
    "Attenuation { with: \""@ + g.with + "\", can: "@ + permission_label(g.can) + " }"@
}

/// The text of a list of grants: their texts, separated by `, `, in
/// square brackets.
pub open spec fn grants_text(gs: Seq<GrantView>) -> Seq<char> {
    "["@ + joined(gs.map_values(|g: GrantView| grant_text(g)), ", "@) + "]"@
}

fn permission_label_exec(p: Permission) -> (r: &'static str)
    ensures
        r@ == permission_label(p),
{
    match p {
        Permission::Read => "Read",
        Permission::Comment => "Comment",
        Permission::Write => "Write",
        Permission::Share => "Share",
        Permission::Admin => "Admin",
    }
}

/// The text of a grant (see `grant_text`).
fn attenuation_text(a: &Attenuation) -> (r: String)
    ensures
        r@ == grant_text(a@),
{
    let mut out = string_of("Attenuation { with: \"");
    out.append(a.with.as_str());
    out.append("\", can: ");
    out.append(permission_label_exec(a.can));
    out.append(" }");
    out
}

/// The text of a list of grants (see `grants_text`).
fn attenuations_text(v: &Vec<Attenuation>) -> (r: String)
    ensures
        r@ == grants_text(v@.map_values(|a: Attenuation| a@)),
{
    let mut items: Vec<String> = Vec::new();
    let mut i: usize = 0;
    while i < v.len()
        invariant
            i <= v@.len(),
            string_views(items@) == v@.map_values(|a: Attenuation| a@).take(i as int).map_values(|g: GrantView| grant_text(g)),
        decreases v@.len() - i,
    {
        let t = attenuation_text(&v[i]);
        let ghost prev = items@;
        items.push(t);
        assert(items@ =~= prev.push(t));
        assert(string_views(items@) =~= string_views(prev).push(t@));
        assert(v@.map_values(|a: Attenuation| a@).take(i + 1).map_values(|g: GrantView| grant_text(g))
            =~= v@.map_values(|a: Attenuation| a@).take(i as int).map_values(|g: GrantView| grant_text(g)).push(grant_text(v@[i as int]@)));
        i = i + 1;
    }
    assert(v@.map_values(|a: Attenuation| a@).take(v@.len() as int) =~= v@.map_values(|a: Attenuation| a@));
    let mut out = string_of("[");
    let body = join_strings(&items, ", ");
    out.append(body.as_str());
    out.append("]");
    out
}


// ---- Revocations ----

/// A signed revocation of a capability, by its content identifier.
#[derive(Debug, Clone)]
pub struct Revocation {
    /// Content identifier of the revoked capability.
    pub ucan_cid: String,
    /// Revocation time (Unix seconds).
    pub revoked_at: u64,
    /// DID of the revoker.
    pub revoked_by: String,
    /// Why.
    pub reason: Option<String>,
    /// Signature over the JSON of the fields above.
    pub signature: Vec<u8>,
}

/// A revocation as text and bytes.
pub struct RevocationView {
    pub ucan_cid: Seq<char>,
    pub revoked_at: u64,
    pub revoked_by: Seq<char>,
    pub reason: Option<Seq<char>>,
    pub signature: Seq<u8>,
}

impl View for Revocation {
    type V = RevocationView;

    open spec fn view(&self) -> RevocationView {
        RevocationView {
            ucan_cid: self.ucan_cid@,
            revoked_at: self.revoked_at,
            revoked_by: self.revoked_by@,
            reason: opt_text(self.reason),
            signature: self.signature@,
        }
    }
}

/// Why a revocation does not verify: the revoker's DID names no key, the
/// signature is not 64 bytes, or it does not verify over the JSON of the
/// signed fields.
pub open spec fn revocation_refusal(r: RevocationView) -> Option<Refusal> {
    match did_key(r.revoked_by) {
        Err(m) => Some(Refusal::Malformed(m)),
        Ok(k) => if r.signature.len() != 64 {
            Some(Refusal::BadRevocationSignature)
        } else if ed25519_verifies(
            k,
            encode_utf8(revocation_json(r.ucan_cid, r.revoked_at, r.revoked_by, r.reason)),
            r.signature,
        ) {
            None
        } else {
            Some(Refusal::BadRevocationSignature)
        },
    }
}

/// 64 bytes as an array.
fn signature_array(v: &Vec<u8>) -> (r: [u8; 64])
    requires
        v@.len() == 64,
    ensures
        r@ == v@,
{
    let mut sig = [0u8; 64];
    let mut i: usize = 0;
    while i < 64
        invariant
            i <= 64,
            v@.len() == 64,
            forall|k: int| 0 <= k < i ==> sig@[k] == v@[k],
        decreases 64 - i,
    {
        sig[i] = v[i];
        i = i + 1;
    }
    assert(sig@ =~= v@);
    sig
}

/// An array's bytes as a vector.
fn signature_vec(a: &[u8; 64]) -> (r: Vec<u8>)
    ensures
        r@ == a@,
{
    let mut v: Vec<u8> = Vec::new();
    let mut i: usize = 0;
    while i < 64
        invariant
            i <= 64,
            v@ == a@.take(i as int),
        decreases 64 - i,
    {
        v.push(a[i]);
        assert(v@ =~= a@.take(i + 1));
        i = i + 1;
    }
    assert(a@.take(64) =~= a@);
    v
}

impl Revocation {
    /// A revocation signed by the revoker at `now`. It verifies when the
    /// revoker's key pair is sound.
    pub fn new_at(ucan_cid: String, revoker: &Identity, reason: Option<String>, now: u64) -> (r: Result<
        Revocation,
        LatticeError,
    >)
        ensures
            r matches Ok(v) && v@.ucan_cid == ucan_cid@ && v@.revoked_at == now && v@.revoked_by == did_text(
                revoker.public_key(),
            ) && v@.reason == opt_text(reason) && v@.signature == ed25519_signature(
                revoker.secret(),
                encode_utf8(revocation_json(ucan_cid@, now, v@.revoked_by, opt_text(reason))),
            ) && (revoker.well_formed() ==> revocation_refusal(v@) is None),
    {
        let revoked_by = revoker.did();
        let json = revocation_json_text(ucan_cid.as_str(), now, revoked_by.as_str(), &reason);
        let sig = revoker.sign(json.as_str().as_bytes());
        let signature = signature_vec(&sig);
        Ok(Revocation { ucan_cid, revoked_at: now, revoked_by, reason, signature })
    }

    /// A revocation signed by the revoker now.
    pub fn new(ucan_cid: String, revoker: &Identity, reason: Option<String>) -> (r: Result<Revocation, LatticeError>)
        ensures
            r matches Ok(v) && v@.ucan_cid == ucan_cid@ && v@.revoked_by == did_text(revoker.public_key())
                && v@.reason == opt_text(reason) && (revoker.well_formed() ==> revocation_refusal(v@) is None),
    {
        Revocation::new_at(ucan_cid, revoker, reason, unix_seconds())
    }

    /// Check the signature (see `revocation_refusal`).
    pub fn verify(&self) -> (r: Result<(), LatticeError>)
        ensures
            outcome(r, revocation_refusal(self@)),
    {
        let json = revocation_json_text(self.ucan_cid.as_str(), self.revoked_at, self.revoked_by.as_str(), &self.reason);
        let key = match public_key_from_did(self.revoked_by.as_str()) {
            Ok(k) => k,
            Err(e) => return Err(e),
        };
        if self.signature.len() != 64 {
            return Err(LatticeError::InvalidRevocationSignature);
        }
        let sig = signature_array(&self.signature);
        match key.verify(json.as_str().as_bytes(), &sig) {
            Ok(()) => Ok(()),
            Err(_) => Err(LatticeError::InvalidRevocationSignature),
        }
    }
}

/// The first revocation of a content identifier in a list.
pub open spec fn first_revocation(rs: Seq<RevocationView>, cid: Seq<char>) -> Option<RevocationView>
    decreases rs.len(),
{
    if rs.len() == 0 {
        None
    } else if rs[0].ucan_cid == cid {
        Some(rs[0])
    } else {
        first_revocation(rs.skip(1), cid)
    }
}

/// A list of revocations, checked as they are added and read.
#[derive(Debug, Clone)]
pub struct RevocationList {
    pub revocations: Vec<Revocation>,
}

impl Default for RevocationList {
    fn default() -> (r: RevocationList)
        ensures
            r.revocations@.len() == 0,
    {
        RevocationList { revocations: Vec::new() }
    }
}

impl RevocationList {
    /// The revocations as text and bytes.
    pub open spec fn views(&self) -> Seq<RevocationView> {
        self.revocations@.map_values(|r: Revocation| r@)
    }

    /// The answer for a content identifier: not revoked when no revocation
    /// names it; revoked when the first that does verifies; a failed check
    /// otherwise.
    pub open spec fn answer(&self, cid: Seq<char>) -> Option<bool> {
        match first_revocation(self.views(), cid) {
            None => Some(false),
            Some(v) => if revocation_refusal(v) is None {
                Some(true)
            } else {
                None
            },
        }
    }

    /// Add a revocation after checking its signature; one for a content
    /// identifier already listed is not added again.
    pub fn add(&mut self, revocation: Revocation) -> (r: Result<(), LatticeError>)
        ensures
            match revocation_refusal(revocation@) {
                Some(w) => r matches Err(e) && reports(e, w) && final(self).views() == old(self).views(),
                None => r is Ok && final(self).views() == (if first_revocation(old(self).views(), revocation@.ucan_cid) is Some {
                    old(self).views()
                } else {
                    old(self).views().push(revocation@)
                }),
            },
    {
        match revocation.verify() {
            Ok(()) => {},
            Err(e) => return Err(e),
        }
        let found = self.find(revocation.ucan_cid.as_str());
        if found.is_none() {
            self.revocations.push(revocation);
            assert(self.views() =~= old(self).views().push(revocation@));
        }
        Ok(())
    }

    /// The position of the first revocation of a content identifier.
    fn find(&self, cid: &str) -> (r: Option<usize>)
        ensures
            match first_revocation(self.views(), cid@) {
                None => r is None,
                Some(v) => r matches Some(i) && i < self.revocations@.len() && self.views()[i as int] == v,
            },
    {
        let ghost all = self.views();
        assert(all.skip(0) =~= all);
        let mut i: usize = 0;
        while i < self.revocations.len()
            invariant
                i <= self.revocations@.len(),
                all == self.views(),
                first_revocation(all, cid@) == first_revocation(all.skip(i as int), cid@),
            decreases self.revocations@.len() - i,
        {
            assert(all.skip(i as int)[0] == self.revocations@[i as int]@);
            if str_eq(self.revocations[i].ucan_cid.as_str(), cid) {
                return Some(i);
            }
            assert(all.skip(i as int).skip(1) =~= all.skip(i + 1));
            i = i + 1;
        }
        assert(all.skip(i as int).len() == 0);
        None
    }

    /// Whether a content identifier is revoked, checking the signature of
    /// the revocation found (see `answer`).
    pub fn is_revoked(&self, cid: &str) -> (r: Result<bool, LatticeError>)
        ensures
            match first_revocation(self.views(), cid@) {
                None => r == Ok::<bool, LatticeError>(false),
                Some(v) => match revocation_refusal(v) {
                    None => r == Ok::<bool, LatticeError>(true),
                    Some(w) => r matches Err(e) && reports(e, w),
                },
            },
    {
        match self.find(cid) {
            None => Ok(false),
            Some(i) => match self.revocations[i].verify() {
                Ok(()) => Ok(true),
                Err(e) => Err(e),
            },
        }
    }
}

impl RevocationChecker for RevocationList {
    open spec fn revocation_answer(&self, cid: Seq<char>) -> Option<bool> {
        self.answer(cid)
    }

    fn is_revoked(&self, cid: &str) -> (r: Result<bool, LatticeError>) {
        RevocationList::is_revoked(self, cid)
    }
}

/// Revocation reaches down a proof chain: a capability whose own checks
/// pass but whose first proof is revoked (and otherwise valid at `now`) is
/// refused as revoked.
pub proof fn lemma_revoked_proof_revokes<R: RevocationChecker>(
    c: CapabilityView,
    p: CapabilityView,
    now: u64,
    rev: &R,
    fuel: nat,
)
    requires
        own_refusal(c, now, rev) is None,
        fuel >= 1,
        c.payload.prf.len() >= 1,
        capability_of(c.payload.prf[0]) == Ok::<CapabilityView, Seq<char>>(p),
        signature_refusal(p) is None,
        window_refusal(p, now) is None,
        rev.revocation_answer(cid_text(p.token)) == Some(true),
    ensures
        validation(c, now, rev, fuel) == Some(Refusal::Revoked),
{
    assert(own_refusal(p, now, rev) == Some(Refusal::Revoked));
    assert(validation(p, now, rev, (fuel - 1) as nat) == Some(Refusal::Revoked));
    assert(proofs_refusal(c, now, rev, 0, fuel, 0) == Some(Refusal::Revoked));
    assert(chain_refusal(c, now, rev, 0, fuel) == Some(Refusal::Revoked));
}

/// A verified revocation added to a list makes its content identifier
/// revoked, when the list held only verified revocations.
pub proof fn lemma_added_revocation_revokes(before: Seq<RevocationView>, after: Seq<RevocationView>, r: RevocationView)
    requires
        forall|i: int| 0 <= i < before.len() ==> revocation_refusal(#[trigger] before[i]) is None,
        revocation_refusal(r) is None,
        after == (if first_revocation(before, r.ucan_cid) is Some {
            before
        } else {
            before.push(r)
        }),
    ensures
        first_revocation(after, r.ucan_cid) matches Some(v) && revocation_refusal(v) is None,
    decreases before.len(),
{
    if before.len() == 0 {
        assert(after =~= seq![r]);
    } else if before[0].ucan_cid == r.ucan_cid {
    } else {
        let rest = before.skip(1);
        let rest_after = if first_revocation(rest, r.ucan_cid) is Some { rest } else { rest.push(r) };
        assert forall|i: int| 0 <= i < rest.len() implies revocation_refusal(#[trigger] rest[i]) is None by {
            assert(rest[i] == before[i + 1]);
        }
        lemma_added_revocation_revokes(rest, rest_after, r);
        assert(after.skip(1) =~= rest_after);
        assert(after[0] == before[0]);
    }
}


// ---- Grants, delegation, creation and revocation ----

/// Whether a capability grants a permission on a resource.
pub open spec fn grants(c: CapabilityView, resource: Seq<char>, p: Permission) -> bool {
    exists|j: int|
        0 <= j < c.payload.att.len() && (#[trigger] c.payload.att[j]).with == resource && permission_level(
            c.payload.att[j].can,
        ) >= permission_level(p)
}

/// The object a resource URI names, when it is an object URI whose UUID
/// parses.
pub open spec fn resource_object(resource: Seq<char>) -> Option<ObjectID> {
    if object_prefix().is_prefix_of(resource) {
        match uuid_parse(resource.skip(object_prefix().len() as int)) {
            Some(u) => Some(ObjectID(u)),
            None => None,
        }
    } else {
        None
    }
}

/// The object of the first grant that names one.
pub open spec fn first_grant_object(att: Seq<GrantView>) -> Option<ObjectID>
    decreases att.len(),
{
    if att.len() == 0 {
        None
    } else {
        match resource_object(att[0].with) {
            Some(id) => Some(id),
            None => first_grant_object(att.skip(1)),
        }
    }
}

/// The object a capability is about: its subject's, else its first grant's
/// that names one.
pub open spec fn capability_object(c: CapabilityView) -> Option<ObjectID> {
    match c.payload.sub {
        Some(s) => match resource_object(s) {
            Some(id) => Some(id),
            None => first_grant_object(c.payload.att),
        },
        None => first_grant_object(c.payload.att),
    }
}

/// The first held permission that does not include the one asked for.
pub open spec fn escalation(att: Seq<GrantView>, asked: Permission) -> Option<Permission>
    decreases att.len(),
{
    if att.len() == 0 {
        None
    } else if permission_level(att[0].can) >= permission_level(asked) {
        escalation(att.skip(1), asked)
    } else {
        Some(att[0].can)
    }
}

/// The header every new token gets.
pub open spec fn default_header() -> HeaderView {
    HeaderView { alg: "EdDSA"@, typ: "JWT"@, ucv: ucan_version() }
}

/// The facts every new token gets: version `0.1`.
pub open spec fn default_facts() -> FactsView {
    FactsView { version: Some("0.1"@), device: None, custom: Seq::empty() }
}

/// `now + secs`, wrapping past `u64::MAX`.
pub open spec fn wrapping_sum(now: u64, secs: u64) -> u64 {
    if now + secs > u64::MAX {
        (now + secs - 0x1_0000_0000_0000_0000) as u64
    } else {
        (now + secs) as u64
    }
}

/// Why a capability may not be delegated: it is not valid, the delegator
/// is not its audience, or a held permission does not include the one
/// asked for.
pub open spec fn delegation_refusal<R: RevocationChecker>(
    c: CapabilityView,
    delegator_did: Seq<char>,
    asked: Permission,
    now: u64,
    rev: &R,
) -> Option<Refusal> {
    match validation(c, now, rev, c.token.len()) {
        Some(w) => Some(w),
        None => if delegator_did != c.payload.aud {
            Some(Refusal::DelegatorNotAudience)
        } else {
            match escalation(c.payload.att, asked) {
                Some(held) => Some(Refusal::Escalation(held, asked)),
                None => None,
            }
        },
    }
}

/// The payload of a delegation: issued by the delegator to the new
/// audience, same subject, expiring at the earlier of `now + secs` and the
/// parent's expiry, valid from `now`, every grant narrowed to the asked
/// permission, resting on the parent's token.
pub open spec fn delegated_payload(
    c: CapabilityView,
    delegator_did: Seq<char>,
    audience_did: Seq<char>,
    asked: Permission,
    now: u64,
    secs: u64,
    nonce: Seq<char>,
) -> PayloadView {
    let e = wrapping_sum(now, secs);
    PayloadView {
        iss: delegator_did,
        aud: audience_did,
        sub: c.payload.sub,
        exp: if e < c.payload.exp { e } else { c.payload.exp },
        nbf: Some(now),
        nnc: Some(nonce),
        att: c.payload.att.map_values(|g: GrantView| GrantView { with: g.with, can: asked }),
        prf: seq![c.token],
        fct: Some(default_facts()),
    }
}

/// The payload of a new grant of a permission on a resource.
pub open spec fn grant_payload(
    issuer_did: Seq<char>,
    audience_did: Seq<char>,
    resource: Seq<char>,
    p: Permission,
    now: u64,
    secs: u64,
    nonce: Seq<char>,
) -> PayloadView {
    PayloadView {
        iss: issuer_did,
        aud: audience_did,
        sub: Some(resource),
        exp: wrapping_sum(now, secs),
        nbf: Some(now),
        nnc: Some(nonce),
        att: seq![GrantView { with: resource, can: p }],
        prf: Seq::empty(),
        fct: Some(default_facts()),
    }
}

/// Whether a capability was sealed from a header and payload by an
/// identity: its token is theirs with the identity's signature.
pub open spec fn sealed_by(c: CapabilityView, h: HeaderView, p: PayloadView, signer: &Identity) -> bool {
    &&& c.header == h
    &&& c.payload == p
    &&& c.signature == ed25519_signature(signer.secret(), encode_utf8(signing_text(h, p)))
    &&& c.token == sealed_token(h, p, c.signature)
}

/// Why a revoker may not revoke a capability: it is not the issuer, and no
/// valid admin capability addressed to it grants admin on the capability's
/// object.
pub open spec fn revocation_authority_refusal<R: RevocationChecker>(
    c: CapabilityView,
    revoker_did: Seq<char>,
    admin: Option<CapabilityView>,
    now: u64,
    rev: &R,
) -> Option<Refusal> {
    if revoker_did == c.payload.iss {
        None
    } else {
        match admin {
            None => Some(Refusal::RevokerUnauthorized),
            Some(a) => match validation(a, now, rev, a.token.len()) {
                Some(w) => Some(w),
                None => if a.payload.aud != revoker_did {
                    Some(Refusal::RevokerUnauthorized)
                } else {
                    match capability_object(c) {
                        None => Some(Refusal::MissingSubject),
                        Some(id) => if grants(a, object_resource(id), Permission::Admin) {
                            None
                        } else {
                            Some(Refusal::NotAdmin(id))
                        },
                    }
                },
            },
        }
    }
}

/// The view of an optional capability.
pub open spec fn opt_view(o: Option<&Capability>) -> Option<CapabilityView> {
    match o {
        Some(c) => Some(c@),
        None => None,
    }
}

/// `Duration::as_secs`. Nothing is claimed of its value (the duration is
/// opaque here).
#[verifier::external_body]
fn duration_secs(d: &Duration) -> (r: u64) {
    d.as_secs()
}

/// A fresh nonce: the text of a time-ordered random UUID.
fn fresh_nonce() -> (r: String)
    ensures
        exists|u: u128| r@ == #[trigger] uuid_text(u),
{
    uuid_to_string(new_uuid_v7())
}

/// `now + secs`, wrapping past `u64::MAX`.
fn wrapping_sum_exec(now: u64, secs: u64) -> (r: u64)
    ensures
        r == wrapping_sum(now, secs),
{
    if secs <= u64::MAX - now {
        now + secs
    } else {
        secs - (u64::MAX - now) - 1
    }
}

/// The facts every new token gets.
fn new_facts() -> (r: Facts)
    ensures
        r@ == default_facts(),
{
    let f = Facts { version: Some(string_of("0.1")), device: None, custom: Vec::new() };
    assert(f@.custom =~= Seq::<(Seq<char>, Seq<char>)>::empty());
    f
}

/// The header every new token gets.
fn new_header() -> (r: UcanHeader)
    ensures
        r@ == default_header(),
{
    UcanHeader::default()
}

impl Capability {
    /// Grant a permission on a resource at `now`, sealed by the issuer.
    pub fn create_for_resource_at(
        issuer: &Identity,
        audience: &PublicKey,
        resource: String,
        permission: Permission,
        expires_in_secs: u64,
        now: u64,
        nonce: String,
    ) -> (r: Result<Capability, LatticeError>)
        ensures
            r matches Ok(c) && sealed_by(
                c@,
                default_header(),
                grant_payload(
                    did_text(issuer.public_key()),
                    did_text(audience.0@),
                    resource@,
                    permission,
                    now,
                    expires_in_secs,
                    nonce@,
                ),
                issuer,
            ),
    {
        let iss = issuer.did();
        let aud = audience.did();
        let exp = wrapping_sum_exec(now, expires_in_secs);
        let mut att: Vec<Attenuation> = Vec::new();
        att.push(Attenuation::for_resource(resource.clone(), permission));
        let payload = UcanPayload {
            iss,
            aud,
            sub: Some(resource),
            exp,
            nbf: Some(now),
            nnc: Some(nonce),
            att,
            prf: Vec::new(),
            fct: Some(new_facts()),
        };
        let ghost pv = payload@;
        assert(pv.att =~= seq![GrantView { with: resource@, can: permission }]);
        assert(pv.prf =~= Seq::<Seq<char>>::empty());
        let c = seal(new_header(), payload, issuer);
        Ok(c)
    }

    /// Grant a permission on an object (the resource
    /// `latticefs:object:<uuid>`) at `now`, sealed by the issuer.
    pub fn create_at(
        issuer: &Identity,
        audience: &PublicKey,
        object_id: &ObjectID,
        permission: Permission,
        expires_in_secs: u64,
        now: u64,
        nonce: String,
    ) -> (r: Result<Capability, LatticeError>)
        ensures
            r matches Ok(c) && sealed_by(
                c@,
                default_header(),
                grant_payload(
                    did_text(issuer.public_key()),
                    did_text(audience.0@),
                    object_resource(*object_id),
                    permission,
                    now,
                    expires_in_secs,
                    nonce@,
                ),
                issuer,
            ),
    {
        let mut resource = string_of("latticefs:object:");
        let id = object_id.to_string();
        resource.append(id.as_str());
        Capability::create_for_resource_at(issuer, audience, resource, permission, expires_in_secs, now, nonce)
    }

    /// Grant a permission on an object, valid from now for a duration.
    pub fn create(
        issuer: &Identity,
        audience: &PublicKey,
        object_id: &ObjectID,
        permission: Permission,
        expires_in: Duration,
    ) -> (r: Result<Capability, LatticeError>)
        ensures
            r matches Ok(c) && exists|now: u64, secs: u64, nonce: Seq<char>|
                sealed_by(
                    c@,
                    default_header(),
                    #[trigger] grant_payload(
                        did_text(issuer.public_key()),
                        did_text(audience.0@),
                        object_resource(*object_id),
                        permission,
                        now,
                        secs,
                        nonce,
                    ),
                    issuer,
                ),
    {
        let secs = duration_secs(&expires_in);
        let now = unix_seconds();
        let nonce = fresh_nonce();
        let ghost nv = nonce@;
        let r = Capability::create_at(issuer, audience, object_id, permission, secs, now, nonce);
        assert(sealed_by(r->Ok_0@, default_header(), grant_payload(did_text(issuer.public_key()), did_text(audience.0@), object_resource(*object_id), permission, now, secs, nv), issuer));
        r
    }

    /// Grant a permission on a resource URI, valid from now for a duration.
    pub fn create_for_resource(
        issuer: &Identity,
        audience: &PublicKey,
        resource: String,
        permission: Permission,
        expires_in: Duration,
    ) -> (r: Result<Capability, LatticeError>)
        ensures
            r matches Ok(c) && exists|now: u64, secs: u64, nonce: Seq<char>|
                sealed_by(
                    c@,
                    default_header(),
                    #[trigger] grant_payload(
                        did_text(issuer.public_key()),
                        did_text(audience.0@),
                        resource@,
                        permission,
                        now,
                        secs,
                        nonce,
                    ),
                    issuer,
                ),
    {
        let secs = duration_secs(&expires_in);
        let now = unix_seconds();
        let nonce = fresh_nonce();
        let ghost nv = nonce@;
        let ghost rv = resource@;
        let r = Capability::create_for_resource_at(issuer, audience, resource, permission, secs, now, nonce);
        assert(sealed_by(r->Ok_0@, default_header(), grant_payload(did_text(issuer.public_key()), did_text(audience.0@), rv, permission, now, secs, nv), issuer));
        r
    }

    /// Delegate at `now`: after validating this capability, check that the
    /// delegator is its audience and that every held permission includes
    /// the asked one, then seal the delegated payload (see
    /// `delegated_payload`) with the delegator's key.
    pub fn delegate_at<R: RevocationChecker>(
        &self,
        delegator: &Identity,
        new_audience: &PublicKey,
        attenuated_permission: Permission,
        expires_in_secs: u64,
        revocations: &R,
        now: u64,
        nonce: String,
    ) -> (r: Result<Capability, LatticeError>)
        requires
            signable(self@),
        ensures
            match delegation_refusal(self@, did_text(delegator.public_key()), attenuated_permission, now, revocations) {
                Some(w) => r matches Err(e) && reports(e, w),
                None => r matches Ok(c) && sealed_by(
                    c@,
                    default_header(),
                    delegated_payload(
                        self@,
                        did_text(delegator.public_key()),
                        did_text(new_audience.0@),
                        attenuated_permission,
                        now,
                        expires_in_secs,
                        nonce@,
                    ),
                    delegator,
                ),
            },
    {
        match self.validate_at(now, revocations) {
            Ok(()) => {},
            Err(e) => return Err(e),
        }
        let iss = delegator.did();
        if !str_eq(iss.as_str(), self.payload.aud.as_str()) {
            return Err(LatticeError::Unauthorized {
                permission: string_of("delegate"),
                object: string_of("capability"),
            });
        }
        let ghost cv = self@;
        assert(cv.payload.att.skip(0) =~= cv.payload.att);
        let mut j: usize = 0;
        while j < self.payload.att.len()
            invariant
                j <= self.payload.att@.len(),
                cv == self@,
                validation(cv, now, revocations, cv.token.len()) is None,
                did_text(delegator.public_key()) == cv.payload.aud,
                escalation(cv.payload.att, attenuated_permission) == escalation(
                    cv.payload.att.skip(j as int),
                    attenuated_permission,
                ),
            decreases self.payload.att@.len() - j,
        {
            let held = self.payload.att[j].can;
            assert(cv.payload.att.skip(j as int)[0] == self.payload.att@[j as int]@);
            if !held.includes(&attenuated_permission) {
                return Err(LatticeError::InvalidAttenuation {
                    from: held.to_string(),
                    to: attenuated_permission.to_string(),
                });
            }
            assert(cv.payload.att.skip(j as int).skip(1) =~= cv.payload.att.skip(j + 1));
            j = j + 1;
        }
        let e = wrapping_sum_exec(now, expires_in_secs);
        let exp = if e < self.payload.exp { e } else { self.payload.exp };
        let mut att: Vec<Attenuation> = Vec::new();
        let mut k: usize = 0;
        while k < self.payload.att.len()
            invariant
                k <= self.payload.att@.len(),
                cv == self@,
                att@.map_values(|a: Attenuation| a@) == cv.payload.att.take(k as int).map_values(
                    |g: GrantView| GrantView { with: g.with, can: attenuated_permission },
                ),
            decreases self.payload.att@.len() - k,
        {
            let ghost before = att@.map_values(|a: Attenuation| a@);
            let a = Attenuation { with: self.payload.att[k].with.clone(), can: attenuated_permission };
            att.push(a);
            assert(cv.payload.att[k as int] == self.payload.att@[k as int]@);
            assert(att@.map_values(|a: Attenuation| a@) =~= before.push(
                GrantView { with: cv.payload.att[k as int].with, can: attenuated_permission },
            ));
            assert(cv.payload.att.take(k + 1).map_values(
                |g: GrantView| GrantView { with: g.with, can: attenuated_permission },
            ) =~= cv.payload.att.take(k as int).map_values(
                |g: GrantView| GrantView { with: g.with, can: attenuated_permission },
            ).push(GrantView { with: cv.payload.att[k as int].with, can: attenuated_permission }));
            k = k + 1;
        }
        assert(cv.payload.att.take(self.payload.att@.len() as int) =~= cv.payload.att);
        let mut prf: Vec<String> = Vec::new();
        prf.push(self.token.clone());
        let aud = new_audience.did();
        let payload = UcanPayload {
            iss,
            aud,
            sub: self.payload.sub.clone(),
            exp,
            nbf: Some(now),
            nnc: Some(nonce),
            att,
            prf,
            fct: Some(new_facts()),
        };
        assert(payload@.prf =~= seq![cv.token]);
        assert(payload@.att =~= cv.payload.att.map_values(
            |g: GrantView| GrantView { with: g.with, can: attenuated_permission },
        ));
        let c = seal(new_header(), payload, delegator);
        Ok(c)
    }

    /// Delegate now, the new capability valid for a duration but not past
    /// this one's expiry.
    pub fn delegate<R: RevocationChecker>(
        &self,
        delegator: &Identity,
        new_audience: &PublicKey,
        attenuated_permission: Permission,
        expires_in: Duration,
        revocations: &R,
    ) -> (r: Result<Capability, LatticeError>)
        requires
            signable(self@),
        ensures
            exists|now: u64, secs: u64, nonce: Seq<char>|
                #![trigger delegated_payload(self@, did_text(delegator.public_key()), did_text(new_audience.0@), attenuated_permission, now, secs, nonce)]
                match delegation_refusal(self@, did_text(delegator.public_key()), attenuated_permission, now, revocations) {
                    Some(w) => r matches Err(e) && reports(e, w),
                    None => r matches Ok(c) && sealed_by(
                        c@,
                        default_header(),
                        delegated_payload(
                            self@,
                            did_text(delegator.public_key()),
                            did_text(new_audience.0@),
                            attenuated_permission,
                            now,
                            secs,
                            nonce,
                        ),
                        delegator,
                    ),
                },
    {
        let secs = duration_secs(&expires_in);
        let now = unix_seconds();
        let nonce = fresh_nonce();
        let ghost nv = nonce@;
        let r = self.delegate_at(delegator, new_audience, attenuated_permission, secs, revocations, now, nonce);
        let ghost dp = delegated_payload(self@, did_text(delegator.public_key()), did_text(new_audience.0@), attenuated_permission, now, secs, nv);
        r
    }

    /// Whether a grant gives at least a permission on an object.
    pub fn has_permission(&self, object_id: &ObjectID, permission: Permission) -> (r: bool)
        ensures
            r == grants(self@, object_resource(*object_id), permission),
    {
        let mut uri = string_of("latticefs:object:");
        let id = object_id.to_string();
        uri.append(id.as_str());
        self.has_permission_for_resource(uri.as_str(), permission)
    }

    /// Whether a grant gives at least a permission on a resource URI.
    pub fn has_permission_for_resource(&self, resource: &str, permission: Permission) -> (r: bool)
        ensures
            r == grants(self@, resource@, permission),
    {
        let ghost cv = self@;
        let mut j: usize = 0;
        while j < self.payload.att.len()
            invariant
                j <= self.payload.att@.len(),
                cv == self@,
                forall|q: int| 0 <= q < j ==> !((#[trigger] cv.payload.att[q]).with == resource@ && permission_level(
                    cv.payload.att[q].can,
                ) >= permission_level(permission)),
            decreases self.payload.att@.len() - j,
        {
            let a = &self.payload.att[j];
            assert(cv.payload.att[j as int] == a@);
            if str_eq(a.with.as_str(), resource) && a.can.includes(&permission) {
                return true;
            }
            j = j + 1;
        }
        false
    }

    /// The object the capability is about (see `capability_object`).
    pub fn object_id(&self) -> (r: Option<ObjectID>)
        ensures
            r == capability_object(self@),
    {
        match &self.payload.sub {
            Some(sub) => {
                let a = Attenuation::for_resource(sub.clone(), Permission::Read);
                match a.object_id() {
                    Some(id) => return Some(id),
                    None => {},
                }
            },
            None => {},
        }
        let ghost cv = self@;
        assert(cv.payload.att.skip(0) =~= cv.payload.att);
        let mut j: usize = 0;
        while j < self.payload.att.len()
            invariant
                j <= self.payload.att@.len(),
                cv == self@,
                capability_object(cv) == first_grant_object(cv.payload.att),
                first_grant_object(cv.payload.att) == first_grant_object(cv.payload.att.skip(j as int)),
            decreases self.payload.att@.len() - j,
        {
            assert(cv.payload.att.skip(j as int)[0] == self.payload.att@[j as int]@);
            match self.payload.att[j].object_id() {
                Some(id) => return Some(id),
                None => {},
            }
            assert(cv.payload.att.skip(j as int).skip(1) =~= cv.payload.att.skip(j + 1));
            j = j + 1;
        }
        assert(cv.payload.att.skip(j as int).len() == 0);
        None
    }

    /// Revoke at `now`: the issuer may; anyone else needs a valid admin
    /// capability addressed to them granting admin on this capability's
    /// object (see `revocation_authority_refusal`). The revocation names
    /// this capability's content identifier.
    pub fn revoke_at<R: RevocationChecker>(
        &self,
        revoker: &Identity,
        reason: Option<String>,
        admin_capability: Option<&Capability>,
        revocations: &R,
        now: u64,
    ) -> (r: Result<Revocation, LatticeError>)
        requires
            admin_capability matches Some(a) ==> signable(a@),
        ensures
            match revocation_authority_refusal(self@, did_text(revoker.public_key()), opt_view(admin_capability), now, revocations) {
                Some(w) => r matches Err(e) && reports(e, w),
                None => r matches Ok(v) && v@.ucan_cid == cid_text(self.token@) && v@.revoked_at == now
                    && v@.revoked_by == did_text(revoker.public_key()) && v@.reason == opt_text(reason)
                    && (revoker.well_formed() ==> revocation_refusal(v@) is None),
            },
    {
        let did = revoker.did();
        if !str_eq(did.as_str(), self.payload.iss.as_str()) {
            let admin = match admin_capability {
                None => {
                    return Err(LatticeError::Unauthorized {
                        permission: string_of("revoke"),
                        object: string_of("capability"),
                    });
                },
                Some(a) => a,
            };
            match admin.validate_at(now, revocations) {
                Ok(()) => {},
                Err(e) => return Err(e),
            }
            if !str_eq(admin.payload.aud.as_str(), did.as_str()) {
                return Err(LatticeError::Unauthorized {
                    permission: string_of("revoke"),
                    object: string_of("capability"),
                });
            }
            let object_id = match self.object_id() {
                None => {
                    return Err(LatticeError::InvalidPredicate(string_of("Capability missing object subject")));
                },
                Some(id) => id,
            };
            if !admin.has_permission(&object_id, Permission::Admin) {
                return Err(LatticeError::Unauthorized { permission: string_of("admin"), object: object_id.to_string() });
            }
        }
        Revocation::new_at(self.cid(), revoker, reason, now)
    }

    /// Revoke now (see `revoke_at`).
    pub fn revoke<R: RevocationChecker>(
        &self,
        revoker: &Identity,
        reason: Option<String>,
        admin_capability: Option<&Capability>,
        revocations: &R,
    ) -> (r: Result<Revocation, LatticeError>)
        requires
            admin_capability matches Some(a) ==> signable(a@),
        ensures
            exists|now: u64|
                match #[trigger] revocation_authority_refusal(self@, did_text(revoker.public_key()), opt_view(admin_capability), now, revocations) {
                    Some(w) => r matches Err(e) && reports(e, w),
                    None => r matches Ok(v) && v@.ucan_cid == cid_text(self.token@) && v@.revoked_at == now
                        && v@.revoked_by == did_text(revoker.public_key()) && v@.reason == opt_text(reason)
                        && (revoker.well_formed() ==> revocation_refusal(v@) is None),
                },
    {
        let now = unix_seconds();
        let ghost rs = opt_text(reason);
        let r = self.revoke_at(revoker, reason, admin_capability, revocations, now);
        assert(match revocation_authority_refusal(self@, did_text(revoker.public_key()), opt_view(admin_capability), now, revocations) {
            Some(w) => r matches Err(e) && reports(e, w),
            None => r matches Ok(v) && v@.ucan_cid == cid_text(self.token@) && v@.revoked_at == now
                && v@.revoked_by == did_text(revoker.public_key()) && v@.reason == rs
                && (revoker.well_formed() ==> revocation_refusal(v@) is None),
        });
        r
    }

    /// The issuer's DID.
    pub fn issuer(&self) -> (r: &str)
        ensures
            r@ == self.payload.iss@,
    {
        self.payload.iss.as_str()
    }

    /// The audience's DID.
    pub fn audience(&self) -> (r: &str)
        ensures
            r@ == self.payload.aud@,
    {
        self.payload.aud.as_str()
    }

    /// The expiry (Unix seconds).
    pub fn expires_at(&self) -> (r: u64)
        ensures
            r == self.payload.exp,
    {
        self.payload.exp
    }

    /// Whether the capability counts as expired at `now`: `now` is at or
    /// after its expiry.
    pub open spec fn expired_by(&self, now: u64) -> bool {
        now >= self.payload.exp
    }

    /// Whether the capability has expired at `now`: at or after its expiry.
    pub fn is_expired_at(&self, now: u64) -> (r: bool)
        ensures
            r == (now >= self.payload.exp),
    {
        now >= self.payload.exp
    }

    /// Whether the capability has expired by the clock.
    pub fn is_expired(&self) -> (r: bool)
        ensures
            exists|now: u64| r == #[trigger] self.expired_by(now),
    {
        let now = unix_seconds();
        let r = self.is_expired_at(now);
        assert(r == self.expired_by(now));
        r
    }
}

} // verus!
