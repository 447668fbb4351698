//! Object, version and key identifiers and the object kinds.

use vstd::prelude::*;
use crate::model::link::Link;
use crate::model::policy::PolicyID;
use crate::model::state::{state_name, transition_allowed, State};
use crate::model::tag::{timestamp_now, ActorID, Tag, Timestamp};
use crate::text::{str_eq, string_of};

verus! {

/// What `uuid::Uuid::parse_str` yields, as the UUID's 128-bit value.
pub uninterp spec fn uuid_parse(s: Seq<char>) -> Option<u128>;

/// The hyphenated lowercase text of a UUID (`Uuid`'s `Display`).
pub uninterp spec fn uuid_text(u: u128) -> Seq<char>;

/// `uuid::Uuid::parse_str(s)`, as the UUID's 128-bit value. Claimed: the
/// result is the named one.
#[verifier::external_body]
pub(crate) fn parse_uuid(s: &str) -> (r: Option<u128>)
    ensures
        r == uuid_parse(s@),
{
    match uuid::Uuid::parse_str(s) {
        Ok(u) => Some(u.as_u128()),
        Err(_) => None,
    }
}

/// `Uuid::from_u128(u).to_string()`. Claimed: the result is the named text,
/// `Uuid::parse_str` reads it back as `u` (the hyphenated form is one of
/// the forms the crate documents `parse_str` to accept), and it is 36
/// characters long (32 hex digits and 4 hyphens, as the crate's formatter
/// writes them).
#[verifier::external_body]
pub(crate) fn uuid_to_string(u: u128) -> (r: String)
    ensures
        r@ == uuid_text(u),
        uuid_parse(r@) == Some(u),
        r@.len() == 36,
{
    uuid::Uuid::from_u128(u).to_string()
}

/// `Uuid::now_v7()`, as its 128-bit value: a time-ordered random UUID.
/// Nothing is claimed of the value.
#[verifier::external_body]
pub(crate) fn new_uuid_v7() -> (r: u128) {
    uuid::Uuid::now_v7().as_u128()
}

/// The version 4 UUID made from 16 random bytes.
pub uninterp spec fn uuid_v4_of(b: Seq<u8>) -> u128;

/// `uuid::Builder::from_random_bytes(bytes).into_uuid()`, as its 128-bit
/// value: the bytes with the version and variant bits of a version 4 UUID
/// set. Claimed: the named value.
#[verifier::external_body]
pub(crate) fn uuid_v4_from(bytes: [u8; 16]) -> (r: u128)
    ensures
        r == uuid_v4_of(bytes@),
{
    uuid::Builder::from_random_bytes(bytes).into_uuid().as_u128()
}

/// A random version 4 UUID.
pub(crate) fn new_uuid_v4() -> (r: u128)
    ensures
        exists|b: Seq<u8>| b.len() == 16 && r == #[trigger] uuid_v4_of(b),
{
    let mut bytes = [0u8; 16];
    crate::crypto::encryption::fill_random(&mut bytes);
    let r = uuid_v4_from(bytes);
    assert(bytes@.len() == 16 && r == uuid_v4_of(bytes@));
    r
}

/// Object identifier: a UUID, held as its 128-bit value.
#[derive(Debug, Clone, Copy, PartialEq, Eq, Hash, Structural)]
pub struct ObjectID(pub u128);

impl ObjectID {
    /// A fresh identifier (a time-ordered random UUID).
    pub fn new() -> (r: ObjectID) {
        ObjectID(new_uuid_v7())
    }

    /// The hyphenated text of the UUID (what `Display` prints).
    pub fn to_string(&self) -> (r: String)
        ensures
            r@ == uuid_text(self.0),
            uuid_parse(r@) == Some(self.0),
            r@.len() == 36,
    {
        uuid_to_string(self.0)
    }

    /// The identifier with this UUID value.
    pub fn from_uuid(uuid: u128) -> (r: ObjectID)
        ensures
            r.0 == uuid,
    {
        ObjectID(uuid)
    }

    /// The 16 bytes of the UUID, most significant first.
    pub fn to_bytes(&self) -> (r: [u8; 16])
        ensures
            r@ == u128_be_bytes(self.0),
    {
        u128_to_be_bytes(self.0)
    }
}

/// The 16 bytes of a 128-bit value, most significant first (a UUID's bytes).
pub open spec fn u128_be_bytes(v: u128) -> Seq<u8> {
    Seq::new(16, |i: int| ((v >> ((8 * (15 - i)) as u128)) & 0xff) as u8)
}

/// The 16 bytes of a 128-bit value, most significant first.
pub fn u128_to_be_bytes(v: u128) -> (r: [u8; 16])
    ensures
        r@ == u128_be_bytes(v),
{
    let mut out = [0u8; 16];
    let mut i: usize = 0;
    while i < 16
        invariant
            i <= 16,
            forall|k: int| 0 <= k < i ==> out@[k] == ((v >> ((8 * (15 - k)) as u128)) & 0xff) as u8,
        decreases 16 - i,
    {
        let shift: u128 = (8 * (15 - i)) as u128;
        out[i] = ((v >> shift) & 0xff) as u8;
        i = i + 1;
    }
    assert(out@ =~= u128_be_bytes(v));
    out
}

/// Version identifier: a UUID, held as its 128-bit value.
#[derive(Debug, Clone, Copy, PartialEq, Eq, Hash, Structural)]
pub struct VersionID(pub u128);

impl VersionID {
    /// A fresh identifier (a time-ordered random UUID).
    pub fn new() -> (r: VersionID) {
        VersionID(new_uuid_v7())
    }

    /// The identifier with this UUID value.
    pub fn from_uuid(uuid: u128) -> (r: VersionID)
        ensures
            r.0 == uuid,
    {
        VersionID(uuid)
    }

    /// The hyphenated text of the UUID (what `Display` prints).
    pub fn to_string(&self) -> (r: String)
        ensures
            r@ == uuid_text(self.0),
            uuid_parse(r@) == Some(self.0),
    {
        uuid_to_string(self.0)
    }

    /// The 16 bytes of the UUID, most significant first.
    pub fn to_bytes(&self) -> (r: [u8; 16])
        ensures
            r@ == u128_be_bytes(self.0),
    {
        u128_to_be_bytes(self.0)
    }
}

/// Key identifier: the hash of the key.
#[derive(Debug, Clone, Copy, PartialEq, Eq, Hash)]
pub struct KeyID(pub [u8; 32]);

impl KeyID {
    /// The key identifier for a key hash.
    pub fn from_hash(key: &[u8; 32]) -> (r: KeyID)
        ensures
            r.0@ == key@,
    {
        KeyID(*key)
    }
}

/// Kind of object.
#[derive(Debug, Clone, Copy, PartialEq, Eq, Structural)]
pub enum ObjectType {
    /// Binary data (files).
    Blob,
    /// Collection of objects.
    Tree,
    /// Symbolic commit point.
    Commit,
}

/// Who may see an object's metadata.
#[derive(Debug, Clone, Copy, PartialEq, Eq, Structural)]
pub enum MetadataPartition {
    /// Visible only to the owner.
    Private,
    /// Visible to capability holders.
    Shared,
    /// Searchable by anyone.
    Public,
}


/// An object: a stable identity with versions, tags, links and policies.
#[derive(Debug, Clone)]
pub struct Object {
    pub id: ObjectID,
    pub created_at: Timestamp,
    pub created_by: ActorID,
    pub object_type: ObjectType,
    pub current_version: VersionID,
    pub versions: Vec<VersionID>,
    pub tags: Vec<Tag>,
    pub links: Vec<Link>,
    pub policy_refs: Vec<PolicyID>,
    pub metadata_partition: MetadataPartition,
}

/// The keys and values of tags.
pub open spec fn tag_pairs(tags: Seq<Tag>) -> Seq<(Seq<char>, Seq<char>)> {
    tags.map_values(|t: Tag| (t.key@, t.value@))
}

/// Some tag has this key and value.
pub open spec fn has_tag_pair(tags: Seq<Tag>, key: Seq<char>, value: Seq<char>) -> bool {
    exists|i: int| 0 <= i < tags.len() && tags[i].key@ == key && tags[i].value@ == value
}

/// Two objects agree in everything but their tags.
pub open spec fn same_but_tags(a: Object, b: Object) -> bool {
    &&& a.id == b.id
    &&& a.created_at == b.created_at
    &&& a.created_by == b.created_by
    &&& a.object_type == b.object_type
    &&& a.current_version == b.current_version
    &&& a.versions@ == b.versions@
    &&& a.links@ == b.links@
    &&& a.policy_refs@ == b.policy_refs@
    &&& a.metadata_partition == b.metadata_partition
}

impl Object {
    /// A new object with one version, made now by `created_by`; metadata is
    /// shared by default.
    pub fn new(object_type: ObjectType, initial_version: VersionID, created_by: ActorID) -> (r: Object)
        ensures
            r.created_by == created_by,
            r.object_type == object_type,
            r.current_version == initial_version,
            r.versions@ == seq![initial_version],
            r.tags@.len() == 0,
            r.links@.len() == 0,
            r.policy_refs@.len() == 0,
            r.metadata_partition == MetadataPartition::Shared,
    {
        Object {
            id: ObjectID::new(),
            created_at: timestamp_now(),
            created_by,
            object_type,
            current_version: initial_version,
            versions: vec![initial_version],
            tags: Vec::new(),
            links: Vec::new(),
            policy_refs: Vec::new(),
            metadata_partition: MetadataPartition::Shared,
        }
    }

    /// Add a version; it becomes the current one.
    pub fn add_version(&mut self, version_id: VersionID)
        ensures
            final(self).versions@ == old(self).versions@.push(version_id),
            final(self).current_version == version_id,
            final(self).tags@ == old(self).tags@,
            final(self).id == old(self).id,
            final(self).created_at == old(self).created_at,
            final(self).created_by == old(self).created_by,
            final(self).object_type == old(self).object_type,
            final(self).links@ == old(self).links@,
            final(self).policy_refs@ == old(self).policy_refs@,
            final(self).metadata_partition == old(self).metadata_partition,
    {
        self.versions.push(version_id);
        self.current_version = version_id;
    }

    /// Add a tag, unless one with the same key and value is already there.
    pub fn add_tag(&mut self, tag: Tag)
        ensures
            has_tag_pair(old(self).tags@, tag.key@, tag.value@) ==> final(self).tags@ == old(self).tags@,
            !has_tag_pair(old(self).tags@, tag.key@, tag.value@) ==> final(self).tags@ == old(self).tags@.push(tag),
            final(self).versions@ == old(self).versions@,
            final(self).id == old(self).id,
            same_but_tags(*old(self), *final(self)),
    {
        let ghost start = *self;
        let mut i: usize = 0;
        let mut found = false;
        while i < self.tags.len()
            invariant
                i <= self.tags@.len(),
                self.tags@ == old(self).tags@,
                self.versions@ == old(self).versions@,
                self.id == old(self).id,
                *self == start,
                found == exists|j: int| 0 <= j < i && self.tags@[j].key@ == tag.key@ && self.tags@[j].value@ == tag.value@,
            decreases self.tags@.len() - i,
        {
            if str_eq(self.tags[i].key.as_str(), tag.key.as_str()) && str_eq(self.tags[i].value.as_str(), tag.value.as_str()) {
                found = true;
            }
            i = i + 1;
        }
        if !found {
            self.tags.push(tag);
        }
    }

    /// Remove every tag with this key.
    pub fn remove_tag(&mut self, key: &str)
        ensures
            final(self).tags@ == old(self).tags@.filter(|t: Tag| t.key@ != key@),
            final(self).versions@ == old(self).versions@,
            final(self).id == old(self).id,
    {
        let mut kept: Vec<Tag> = Vec::new();
        let mut pending: Vec<Tag> = Vec::new();
        std::mem::swap(&mut pending, &mut self.tags);
        let ghost orig = pending@;
        let n = pending.len();
        let mut i: usize = 0;
        while i < n
            invariant
                n == orig.len(),
                pending@.len() == n,
                forall|k: int| i <= k < n ==> pending@[k] == orig[k],
                orig == old(self).tags@,
                self.versions@ == old(self).versions@,
                self.id == old(self).id,
                i <= n,
                kept@ == orig.take(i as int).filter(|t: Tag| t.key@ != key@),
            decreases n - i,
        {
            proof {
                assert(orig.take(i + 1).drop_last() =~= orig.take(i as int));
                reveal(Seq::filter);
            }
            let mut t = Tag { key: String::new(), value: String::new(), created_at: 0, created_by: [0u8; 32] };
            std::mem::swap(&mut t, &mut pending[i]);
            assert(t == orig[i as int]);
            if !str_eq(t.key.as_str(), key) {
                kept.push(t);
            }
            i = i + 1;
        }
        assert(orig.take(n as int) =~= orig);
        self.tags = kept;
    }

    /// Add a link.
    pub fn add_link(&mut self, link: Link)
        ensures
            final(self).links@ == old(self).links@.push(link),
            final(self).tags@ == old(self).tags@,
    {
        self.links.push(link);
    }

    /// Add a policy, unless it is already there.
    pub fn add_policy(&mut self, policy_id: PolicyID)
        ensures
            old(self).policy_refs@.contains(policy_id) ==> final(self).policy_refs@ == old(self).policy_refs@,
            !old(self).policy_refs@.contains(policy_id) ==> final(self).policy_refs@ == old(self).policy_refs@.push(policy_id),
            final(self).tags@ == old(self).tags@,
    {
        let mut i: usize = 0;
        while i < self.policy_refs.len()
            invariant
                i <= self.policy_refs@.len(),
                self.policy_refs@ == old(self).policy_refs@,
                self.tags@ == old(self).tags@,
                forall|j: int| 0 <= j < i ==> self.policy_refs@[j] != policy_id,
            decreases self.policy_refs@.len() - i,
        {
            if self.policy_refs[i].0 == policy_id.0 {
                assert(self.policy_refs@[i as int] == policy_id);
                return;
            }
            i = i + 1;
        }
        self.policy_refs.push(policy_id);
    }
}

/// A version: a snapshot of an object's content.
#[derive(Debug, Clone)]
pub struct Version {
    pub id: VersionID,
    pub object_id: ObjectID,
    pub parent_version: Option<VersionID>,
    pub chunk_root: [u8; 32],
    pub manifest_ref: [u8; 32],
    pub created_at: Timestamp,
    pub created_by: ActorID,
    pub state: State,
    pub encrypted: bool,
    pub encryption_key_ref: Option<KeyID>,
    pub size_bytes: u64,
    pub chunk_count: u32,
    pub commit_message: Option<String>,
}

impl Version {
    /// A new draft version, made now.
    pub fn new(
        object_id: ObjectID,
        parent_version: Option<VersionID>,
        chunk_root: [u8; 32],
        manifest_ref: [u8; 32],
        created_by: ActorID,
        size_bytes: u64,
        chunk_count: u32,
        commit_message: Option<String>,
    ) -> (r: Version)
        ensures
            r.object_id == object_id,
            r.parent_version == parent_version,
            r.chunk_root == chunk_root,
            r.manifest_ref == manifest_ref,
            r.created_by == created_by,
            r.state == State::Draft,
            !r.encrypted,
            r.encryption_key_ref is None,
            r.size_bytes == size_bytes,
            r.chunk_count == chunk_count,
            r.commit_message == commit_message,
    {
        Version {
            id: VersionID::new(),
            object_id,
            parent_version,
            chunk_root,
            manifest_ref,
            created_at: timestamp_now(),
            created_by,
            state: State::Draft,
            encrypted: false,
            encryption_key_ref: None,
            size_bytes,
            chunk_count,
            commit_message,
        }
    }

    /// Move to a new state, if the lifecycle allows it; the error names both
    /// states.
    pub fn transition_state(&mut self, new_state: State) -> (r: Result<(), String>)
        ensures
            transition_allowed(old(self).state, new_state) ==> r is Ok && final(self).state == new_state,
            !transition_allowed(old(self).state, new_state) ==> (r matches Err(m)
                && m@ == "Invalid state transition: "@ + state_name(old(self).state) + " -> "@ + state_name(new_state)
                && final(self).state == old(self).state),
            final(self).id == old(self).id,
            final(self).object_id == old(self).object_id,
            r is Ok ==> *final(self) == (Version { state: new_state, ..*old(self) }),
            r is Err ==> *final(self) == *old(self),
    {
        if !self.state.can_transition_to(&new_state) {
            let mut msg = string_of("Invalid state transition: ");
            let from = self.state.to_string();
            let to = new_state.to_string();
            msg.append(from.as_str());
            msg.append(" -> ");
            msg.append(to.as_str());
            return Err(msg);
        }
        self.state = new_state;
        Ok(())
    }
}

} // verus!
