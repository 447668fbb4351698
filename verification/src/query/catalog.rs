//! The records that queries read: objects, versions, aliases and the tag
//! index, each looked up by its key as the metadata store keys it, and the
//! object references and graph closures resolved against them.

use vstd::prelude::*;
use crate::error::LatticeError;
use crate::model::link::{Link, LinkType};
use crate::model::object::{u128_be_bytes, Object, ObjectID, Version, VersionID};
use crate::query::ast::{ObjectRef, ObjectRefV};
use crate::query::lexer::{decimal_chars, push_decimal};
use crate::storage::content::{hex_decode_spec, hex_encode, hex_text, hex_to_hash};
use crate::text::{join_strings, joined, str_eq, string_of, string_views};

verus! {

/// How many levels a closure may descend before the traversal is refused.
pub const MAX_TRAVERSAL_DEPTH: usize = 10;

/// `Uuid::from_slice(bytes)`, as the UUID's 128-bit value. Claimed, as the
/// crate's source shows: `None` exactly when there are not 16 bytes; else
/// the bytes are the value, most significant first.
#[verifier::external_body]
pub(crate) fn uuid_from_slice(bytes: &[u8]) -> (r: Option<u128>)
    ensures
        match r {
            Some(u) => bytes@.len() == 16 && u128_be_bytes(u) == bytes@,
            None => bytes@.len() != 16,
        },
{
    match uuid::Uuid::from_slice(bytes) {
        Ok(u) => Some(u.as_u128()),
        Err(_) => None,
    }
}

/// Two values with the same bytes are the same value.
pub proof fn lemma_be_bytes_injective(a: u128, b: u128)
    requires
        u128_be_bytes(a) == u128_be_bytes(b),
    ensures
        a == b,
{
    let x = u128_be_bytes(a);
    let y = u128_be_bytes(b);
    assert(x[0] == y[0] && x[1] == y[1] && x[2] == y[2] && x[3] == y[3]);
    assert(x[4] == y[4] && x[5] == y[5] && x[6] == y[6] && x[7] == y[7]);
    assert(x[8] == y[8] && x[9] == y[9] && x[10] == y[10] && x[11] == y[11]);
    assert(x[12] == y[12] && x[13] == y[13] && x[14] == y[14] && x[15] == y[15]);
    assert(a == b) by (bit_vector)
        requires
            ((a >> 120u128) & 0xff) as u8 == ((b >> 120u128) & 0xff) as u8,
            ((a >> 112u128) & 0xff) as u8 == ((b >> 112u128) & 0xff) as u8,
            ((a >> 104u128) & 0xff) as u8 == ((b >> 104u128) & 0xff) as u8,
            ((a >> 96u128) & 0xff) as u8 == ((b >> 96u128) & 0xff) as u8,
            ((a >> 88u128) & 0xff) as u8 == ((b >> 88u128) & 0xff) as u8,
            ((a >> 80u128) & 0xff) as u8 == ((b >> 80u128) & 0xff) as u8,
            ((a >> 72u128) & 0xff) as u8 == ((b >> 72u128) & 0xff) as u8,
            ((a >> 64u128) & 0xff) as u8 == ((b >> 64u128) & 0xff) as u8,
            ((a >> 56u128) & 0xff) as u8 == ((b >> 56u128) & 0xff) as u8,
            ((a >> 48u128) & 0xff) as u8 == ((b >> 48u128) & 0xff) as u8,
            ((a >> 40u128) & 0xff) as u8 == ((b >> 40u128) & 0xff) as u8,
            ((a >> 32u128) & 0xff) as u8 == ((b >> 32u128) & 0xff) as u8,
            ((a >> 24u128) & 0xff) as u8 == ((b >> 24u128) & 0xff) as u8,
            ((a >> 16u128) & 0xff) as u8 == ((b >> 16u128) & 0xff) as u8,
            ((a >> 8u128) & 0xff) as u8 == ((b >> 8u128) & 0xff) as u8,
            ((a >> 0u128) & 0xff) as u8 == ((b >> 0u128) & 0xff) as u8,
    ;
}

/// The identifier whose 16 bytes these are.
pub open spec fn id_of_bytes(b: Seq<u8>) -> ObjectID {
    ObjectID(choose|u: u128| u128_be_bytes(u) == b)
}

/// The identifier read from bytes that are its encoding.
proof fn lemma_id_of_bytes(u: u128, b: Seq<u8>)
    requires
        u128_be_bytes(u) == b,
    ensures
        id_of_bytes(b) == ObjectID(u),
{
    let w = choose|w: u128| u128_be_bytes(w) == b;
    lemma_be_bytes_injective(u, w);
}

/// The identifier in 16 bytes, or `None` for any other length.
pub(crate) fn object_id_from_bytes(bytes: &[u8]) -> (r: Option<ObjectID>)
    ensures
        r == (if bytes@.len() == 16 { Some(id_of_bytes(bytes@)) } else { None::<ObjectID> }),
{
    match uuid_from_slice(bytes) {
        Some(u) => {
            proof {
                lemma_id_of_bytes(u, bytes@);
            }
            Some(ObjectID(u))
        },
        None => None,
    }
}

// ---- Keyed lookups: the first entry with the key ----

/// `i` is the first position of `k`.
pub open spec fn is_first_key<K>(keys: Seq<K>, k: K, i: int) -> bool {
    0 <= i < keys.len() && keys[i] == k && forall|j: int| 0 <= j < i ==> keys[j] != k
}

/// The first position of `k`, if it occurs.
pub open spec fn first_key_pos<K>(keys: Seq<K>, k: K) -> Option<int> {
    if exists|i: int| is_first_key(keys, k, i) {
        Some(choose|i: int| is_first_key(keys, k, i))
    } else {
        None
    }
}

pub proof fn lemma_first_key<K>(keys: Seq<K>, k: K, i: int)
    requires
        is_first_key(keys, k, i),
    ensures
        first_key_pos(keys, k) == Some(i),
{
    let j = choose|j: int| is_first_key(keys, k, j);
    if j < i {
        assert(keys[j] != k);
    } else if i < j {
        assert(keys[i] != k);
    }
}

/// The first position, when there is one, is a first position.
pub proof fn lemma_first_pos<K>(keys: Seq<K>, k: K)
    ensures
        first_key_pos(keys, k) matches Some(i) ==> is_first_key(keys, k, i),
        first_key_pos(keys, k) is None ==> forall|j: int| 0 <= j < keys.len() ==> keys[j] != k,
{
    if first_key_pos(keys, k) is None {
        assert forall|j: int| 0 <= j < keys.len() implies keys[j] != k by {
            if keys[j] == k {
                lemma_exists_first(keys, k, j);
            }
        }
    }
}

pub proof fn lemma_no_key<K>(keys: Seq<K>, k: K)
    requires
        forall|j: int| 0 <= j < keys.len() ==> keys[j] != k,
    ensures
        first_key_pos(keys, k) is None,
{
}

pub open spec fn object_keys(objs: Seq<Object>) -> Seq<ObjectID> {
    objs.map_values(|o: Object| o.id)
}

pub open spec fn version_keys(vs: Seq<Version>) -> Seq<VersionID> {
    vs.map_values(|v: Version| v.id)
}

pub open spec fn alias_keys(a: Seq<(String, Vec<u8>)>) -> Seq<Seq<char>> {
    a.map_values(|p: (String, Vec<u8>)| p.0@)
}

pub open spec fn tag_keys(t: Seq<(String, Vec<Vec<u8>>)>) -> Seq<Seq<char>> {
    t.map_values(|p: (String, Vec<Vec<u8>>)| p.0@)
}

pub open spec fn byte_views(v: Seq<Vec<u8>>) -> Seq<Seq<u8>> {
    v.map_values(|b: Vec<u8>| b@)
}

/// What the metadata store holds that queries read. Each list is keyed: an
/// object by its identifier, a version by its identifier, an alias by its
/// name (to the bytes of an object identifier) and a tag-index entry by the
/// tag's key (to the bytes of the identifiers of the objects it was added for).
pub struct Catalog {
    pub objects: Vec<Object>,
    pub versions: Vec<Version>,
    pub aliases: Vec<(String, Vec<u8>)>,
    pub tag_index: Vec<(String, Vec<Vec<u8>>)>,
}

/// Why a lookup or a resolution failed.
pub enum LookupFailure {
    /// No object with this identifier.
    ObjectMissing(ObjectID),
    /// No version with this identifier.
    VersionMissing(VersionID),
    /// An alias holds this many bytes, not an identifier's 16.
    AliasLength(nat),
    /// A closure descended as deep as allowed.
    DepthExceeded,
    /// Parent links run in a circle.
    CyclicVersion,
}

/// The error the library reports for a failure.
pub open spec fn failure_matches(e: LatticeError, f: LookupFailure) -> bool {
    match f {
        LookupFailure::ObjectMissing(id) => e matches LatticeError::ObjectNotFound { id: s } && s@ == hex_text(
            u128_be_bytes(id.0),
        ),
        LookupFailure::VersionMissing(id) => e matches LatticeError::VersionNotFound { id: s } && s@ == hex_text(
            u128_be_bytes(id.0),
        ),
        LookupFailure::AliasLength(n) => e matches LatticeError::Serialization(m) && m@
            == "Invalid alias object id length: "@ + decimal_chars(n),
        LookupFailure::DepthExceeded => e == LatticeError::TraversalDepthExceeded { max: 10 },
        LookupFailure::CyclicVersion => e == LatticeError::CyclicVersion,
    }
}

impl Catalog {
    /// The object stored under an identifier.
    pub open spec fn object(&self, id: ObjectID) -> Option<Object> {
        match first_key_pos(object_keys(self.objects@), id) {
            Some(i) => Some(self.objects@[i]),
            None => None,
        }
    }

    /// The version stored under an identifier.
    pub open spec fn version(&self, id: VersionID) -> Option<Version> {
        match first_key_pos(version_keys(self.versions@), id) {
            Some(i) => Some(self.versions@[i]),
            None => None,
        }
    }

    /// The bytes an alias names.
    pub open spec fn alias(&self, name: Seq<char>) -> Option<Seq<u8>> {
        match first_key_pos(alias_keys(self.aliases@), name) {
            Some(i) => Some(self.aliases@[i].1@),
            None => None,
        }
    }

    /// The identifier bytes the tag index holds for a tag key (none when the
    /// key has no entry).
    pub open spec fn tagged(&self, key: Seq<char>) -> Seq<Seq<u8>> {
        match first_key_pos(tag_keys(self.tag_index@), key) {
            Some(i) => byte_views(self.tag_index@[i].1@),
            None => seq![],
        }
    }

    /// An empty catalog.
    pub fn new() -> (r: Catalog)
        ensures
            r.objects@.len() == 0,
            r.versions@.len() == 0,
            r.aliases@.len() == 0,
            r.tag_index@.len() == 0,
    {
        Catalog { objects: Vec::new(), versions: Vec::new(), aliases: Vec::new(), tag_index: Vec::new() }
    }

    fn find_object(&self, id: ObjectID) -> (r: Option<usize>)
        ensures
            match r {
                Some(i) => is_first_key(object_keys(self.objects@), id, i as int),
                None => forall|j: int| 0 <= j < self.objects@.len() ==> self.objects@[j].id != id,
            },
    {
        let mut i: usize = 0;
        while i < self.objects.len()
            invariant
                i <= self.objects@.len(),
                forall|j: int| 0 <= j < i ==> self.objects@[j].id != id,
            decreases self.objects@.len() - i,
        {
            if self.objects[i].id.0 == id.0 {
                return Some(i);
            }
            i = i + 1;
        }
        None
    }

    fn find_version(&self, id: VersionID) -> (r: Option<usize>)
        ensures
            match r {
                Some(i) => is_first_key(version_keys(self.versions@), id, i as int),
                None => forall|j: int| 0 <= j < self.versions@.len() ==> self.versions@[j].id != id,
            },
    {
        let mut i: usize = 0;
        while i < self.versions.len()
            invariant
                i <= self.versions@.len(),
                forall|j: int| 0 <= j < i ==> self.versions@[j].id != id,
            decreases self.versions@.len() - i,
        {
            if self.versions[i].id.0 == id.0 {
                return Some(i);
            }
            i = i + 1;
        }
        None
    }

    /// The object stored under an identifier; `ObjectNotFound`, with the hex
    /// of its bytes, when there is none.
    pub fn load_object(&self, id: &ObjectID) -> (r: Result<&Object, LatticeError>)
        ensures
            match self.object(*id) {
                Some(o) => r == Ok::<&Object, LatticeError>(&o),
                None => r matches Err(e) && failure_matches(e, LookupFailure::ObjectMissing(*id)),
            },
    {
        match self.find_object(*id) {
            Some(i) => {
                proof {
                    lemma_first_key(object_keys(self.objects@), *id, i as int);
                }
                Ok(&self.objects[i])
            },
            None => {
                proof {
                    lemma_no_key(object_keys(self.objects@), *id);
                }
                let bytes = id.to_bytes();
                Err(LatticeError::ObjectNotFound { id: hex_encode(&bytes) })
            },
        }
    }

    /// The version stored under an identifier; `VersionNotFound`, with the
    /// hex of its bytes, when there is none.
    pub fn load_version(&self, id: &VersionID) -> (r: Result<&Version, LatticeError>)
        ensures
            match self.version(*id) {
                Some(v) => r == Ok::<&Version, LatticeError>(&v),
                None => r matches Err(e) && failure_matches(e, LookupFailure::VersionMissing(*id)),
            },
    {
        match self.find_version(*id) {
            Some(i) => {
                proof {
                    lemma_first_key(version_keys(self.versions@), *id, i as int);
                }
                Ok(&self.versions[i])
            },
            None => {
                proof {
                    lemma_no_key(version_keys(self.versions@), *id);
                }
                let bytes = id.to_bytes();
                Err(LatticeError::VersionNotFound { id: hex_encode(&bytes) })
            },
        }
    }

    /// The bytes stored under an alias.
    pub fn alias_bytes(&self, name: &str) -> (r: Option<&Vec<u8>>)
        ensures
            match self.alias(name@) {
                Some(b) => r matches Some(v) && v@ == b,
                None => r is None,
            },
    {
        let mut i: usize = 0;
        while i < self.aliases.len()
            invariant
                i <= self.aliases@.len(),
                forall|j: int| 0 <= j < i ==> #[trigger] alias_keys(self.aliases@)[j] != name@,
            decreases self.aliases@.len() - i,
        {
            if str_eq(self.aliases[i].0.as_str(), name) {
                proof {
                    lemma_first_key(alias_keys(self.aliases@), name@, i as int);
                }
                return Some(&self.aliases[i].1);
            }
            i = i + 1;
        }
        proof {
            lemma_no_key(alias_keys(self.aliases@), name@);
        }
        None
    }

    /// The identifier bytes the tag index holds for a tag key.
    pub fn query_by_tag(&self, key: &str) -> (r: &[Vec<u8>])
        ensures
            byte_views(r@) == self.tagged(key@),
    {
        let mut i: usize = 0;
        while i < self.tag_index.len()
            invariant
                i <= self.tag_index@.len(),
                forall|j: int| 0 <= j < i ==> #[trigger] tag_keys(self.tag_index@)[j] != key@,
            decreases self.tag_index@.len() - i,
        {
            if str_eq(self.tag_index[i].0.as_str(), key) {
                proof {
                    lemma_first_key(tag_keys(self.tag_index@), key@, i as int);
                }
                return self.tag_index[i].1.as_slice();
            }
            i = i + 1;
        }
        proof {
            lemma_no_key(tag_keys(self.tag_index@), key@);
        }
        assert(byte_views(Seq::<Vec<u8>>::empty()) =~= seq![]);
        &[]
    }
}


// ---- Resolving references ----

/// The identifiers in a list of byte strings, skipping any that are not 16
/// bytes long.
pub open spec fn ids_of(bs: Seq<Seq<u8>>) -> Seq<ObjectID>
    decreases bs.len(),
{
    if bs.len() == 0 {
        seq![]
    } else {
        ids_of(bs.drop_last()) + if bs.last().len() == 16 {
            seq![id_of_bytes(bs.last())]
        } else {
            seq![]
        }
    }
}

/// The objects of the versions whose chunk root or manifest is this hash, in
/// version order.
pub open spec fn hash_holders(vs: Seq<Version>, h: Seq<u8>) -> Seq<ObjectID>
    decreases vs.len(),
{
    if vs.len() == 0 {
        seq![]
    } else {
        hash_holders(vs.drop_last(), h) + if vs.last().chunk_root@ == h || vs.last().manifest_ref@ == h {
            seq![vs.last().object_id]
        } else {
            seq![]
        }
    }
}

/// The link kinds a closure follows.
pub open spec fn in_closure(t: LinkType) -> bool {
    match t {
        LinkType::DerivedFrom | LinkType::References | LinkType::BelongsTo | LinkType::Replaces => true,
        LinkType::Related => false,
    }
}

/// The targets of the closure links among the first `k` links (targets of
/// 16 bytes only) that are not in `seen`, in link order.
pub open spec fn fresh_targets(links: Seq<Link>, seen: Seq<ObjectID>, k: int) -> Seq<ObjectID>
    decreases k,
{
    if k <= 0 {
        seq![]
    } else {
        let l = links[k - 1];
        fresh_targets(links, seen, k - 1) + if in_closure(l.link_type) && l.target@.len() == 16 && !seen.contains(
            id_of_bytes(l.target@),
        ) {
            seq![id_of_bytes(l.target@)]
        } else {
            seq![]
        }
    }
}

impl Catalog {
    /// What an alias resolves to: nothing when it is not set, else the
    /// identifier it holds, or a failure when it holds other than 16 bytes.
    pub open spec fn alias_target(&self, name: Seq<char>) -> Result<Option<ObjectID>, LookupFailure> {
        match self.alias(name) {
            None => Ok(None),
            Some(b) => if b.len() == 16 {
                Ok(Some(id_of_bytes(b)))
            } else {
                Err(LookupFailure::AliasLength(b.len()))
            },
        }
    }

    /// The objects a reference denotes: the identifier itself; the objects
    /// with a version whose chunk root or manifest is the hash (none when the
    /// text is not a 32-byte hash in hex); the objects the tag index holds for
    /// the joined tag path; or the object an alias names.
    pub open spec fn ref_targets(&self, r: ObjectRefV) -> Result<Seq<ObjectID>, LookupFailure> {
        match r {
            ObjectRefV::Id(id) => Ok(seq![id]),
            ObjectRefV::Hash(h) => match hex_decode_spec(vstd::utf8::encode_utf8(h)) {
                Ok(b) => if b.len() == 32 {
                    Ok(hash_holders(self.versions@, b))
                } else {
                    Ok(seq![])
                },
                Err(_) => Ok(seq![]),
            },
            ObjectRefV::Tag(path) => Ok(ids_of(self.tagged(joined(path, ":"@)))),
            ObjectRefV::Alias(a) => match self.alias_target(a) {
                Err(f) => Err(f),
                Ok(None) => Ok(seq![]),
                Ok(Some(id)) => Ok(seq![id]),
            },
        }
    }

    /// Visiting one identifier of a level, given what was visited and the
    /// next level so far: an identifier already visited changes nothing;
    /// else it is visited, and the targets of its object's closure links that
    /// are not yet visited join the next level.
    pub open spec fn visit(&self, st: (Seq<ObjectID>, Seq<ObjectID>), x: ObjectID) -> (Seq<ObjectID>, Seq<ObjectID>) {
        if st.0.contains(x) {
            st
        } else {
            let v = st.0.push(x);
            (v, st.1 + match self.object(x) {
                Some(o) => fresh_targets(o.links@, v, o.links@.len() as int),
                None => seq![],
            })
        }
    }

    /// Visiting the first `k` identifiers of a level, starting from `v0`
    /// visited and an empty next level.
    pub open spec fn visit_prefix(&self, q: Seq<ObjectID>, v0: Seq<ObjectID>, k: int) -> (Seq<ObjectID>, Seq<ObjectID>)
        decreases k,
    {
        if k <= 0 {
            (v0, seq![])
        } else {
            self.visit(self.visit_prefix(q, v0, k - 1), q[k - 1])
        }
    }

    /// Breadth-first traversal level by level, until a level is empty or
    /// the depth limit is reached: what was visited, and the depth reached.
    pub open spec fn traverse(&self, q: Seq<ObjectID>, v: Seq<ObjectID>, depth: nat) -> (Seq<ObjectID>, nat)
        decreases 10 - depth,
    {
        if q.len() == 0 || depth >= 10 {
            (v, depth)
        } else {
            let st = self.visit_prefix(q, v, q.len() as int);
            self.traverse(st.1, st.0, depth + 1)
        }
    }

    /// The closure of a reference: every object reached from its targets
    /// over closure links, in the order visited; a failure when the
    /// traversal reaches the depth limit.
    pub open spec fn closure_of(&self, r: ObjectRefV) -> Result<Seq<ObjectID>, LookupFailure> {
        match self.ref_targets(r) {
            Err(f) => Err(f),
            Ok(roots) => self.closure_from(roots),
        }
    }

    /// Everything reached from these roots, in the order visited; a failure
    /// when the traversal reaches the depth limit.
    pub open spec fn closure_from(&self, roots: Seq<ObjectID>) -> Result<Seq<ObjectID>, LookupFailure> {
        let (v, d) = self.traverse(roots, seq![], 0);
        if d >= 10 {
            Err(LookupFailure::DepthExceeded)
        } else {
            Ok(v)
        }
    }

    /// Resolve an alias to an identifier; `Serialization` when the alias
    /// holds other than 16 bytes.
    pub fn resolve_alias(&self, name: &str) -> (r: Result<Option<ObjectID>, LatticeError>)
        ensures
            match self.alias_target(name@) {
                Ok(o) => r == Ok::<Option<ObjectID>, LatticeError>(o),
                Err(f) => r matches Err(e) && failure_matches(e, f),
            },
    {
        match self.alias_bytes(name) {
            None => Ok(None),
            Some(b) => {
                if b.len() != 16 {
                    let mut m = string_of("Invalid alias object id length: ");
                    push_decimal(&mut m, b.len() as u64);
                    return Err(LatticeError::Serialization(m));
                }
                Ok(object_id_from_bytes(b.as_slice()))
            },
        }
    }

    /// The identifiers in a list of byte strings (16 bytes only).
    pub(crate) fn ids_from_bytes(bs: &[Vec<u8>]) -> (r: Vec<ObjectID>)
        ensures
            r@ == ids_of(byte_views(bs@)),
    {
        let mut out: Vec<ObjectID> = Vec::new();
        let mut i: usize = 0;
        while i < bs.len()
            invariant
                i <= bs@.len(),
                out@ == ids_of(byte_views(bs@).take(i as int)),
            decreases bs@.len() - i,
        {
            assert(byte_views(bs@).take(i + 1).drop_last() =~= byte_views(bs@).take(i as int));
            match object_id_from_bytes(bs[i].as_slice()) {
                Some(id) => out.push(id),
                None => {},
            }
            i = i + 1;
        }
        assert(byte_views(bs@).take(i as int) =~= byte_views(bs@));
        out
    }

    /// The objects of the versions holding this hash.
    fn hash_holders_of(&self, hash: &crate::storage::content::Hash) -> (r: Vec<ObjectID>)
        ensures
            r@ == hash_holders(self.versions@, hash@),
    {
        let mut out: Vec<ObjectID> = Vec::new();
        let mut i: usize = 0;
        while i < self.versions.len()
            invariant
                i <= self.versions@.len(),
                out@ == hash_holders(self.versions@.take(i as int), hash@),
            decreases self.versions@.len() - i,
        {
            assert(self.versions@.take(i + 1).drop_last() =~= self.versions@.take(i as int));
            let v = &self.versions[i];
            if crate::storage::chunks::hashes_equal(&v.chunk_root, hash) || crate::storage::chunks::hashes_equal(
                &v.manifest_ref,
                hash,
            ) {
                out.push(v.object_id);
            }
            i = i + 1;
        }
        assert(self.versions@.take(i as int) =~= self.versions@);
        out
    }

    /// The objects a reference denotes (see `ref_targets`).
    pub fn resolve_object_ref(&self, reference: &ObjectRef) -> (r: Result<Vec<ObjectID>, LatticeError>)
        ensures
            match self.ref_targets(reference@) {
                Ok(s) => r matches Ok(v) && v@ == s,
                Err(f) => r matches Err(e) && failure_matches(e, f),
            },
    {
        match reference {
            ObjectRef::Id(id) => Ok(vec![*id]),
            ObjectRef::Hash(h) => match hex_to_hash(h.as_str()) {
                Ok(hash) => Ok(self.hash_holders_of(&hash)),
                Err(_) => Ok(Vec::new()),
            },
            ObjectRef::Tag(path) => {
                let key = join_strings(path, ":");
                Ok(Self::ids_from_bytes(self.query_by_tag(key.as_str())))
            },
            ObjectRef::Alias(a) => match self.resolve_alias(a.as_str()) {
                Err(e) => Err(e),
                Ok(None) => Ok(Vec::new()),
                Ok(Some(id)) => Ok(vec![id]),
            },
        }
    }
}


/// Whether a closure follows links of this kind.
fn link_type_in_closure(t: &LinkType) -> (r: bool)
    ensures
        r == in_closure(*t),
{
    match t {
        LinkType::DerivedFrom | LinkType::References | LinkType::BelongsTo | LinkType::Replaces => true,
        LinkType::Related => false,
    }
}

/// Whether an identifier is in a list.
pub(crate) fn contains_id(v: &Vec<ObjectID>, x: ObjectID) -> (r: bool)
    ensures
        r == v@.contains(x),
{
    let mut i: usize = 0;
    while i < v.len()
        invariant
            i <= v@.len(),
            forall|j: int| 0 <= j < i ==> v@[j] != x,
        decreases v@.len() - i,
    {
        if v[i].0 == x.0 {
            assert(v@[i as int] == x);
            return true;
        }
        i = i + 1;
    }
    false
}

/// Append the targets of the closure links that are not in `seen`.
fn push_fresh_targets(links: &Vec<Link>, seen: &Vec<ObjectID>, next: &mut Vec<ObjectID>)
    ensures
        final(next)@ == old(next)@ + fresh_targets(links@, seen@, links@.len() as int),
{
    let mut i: usize = 0;
    while i < links.len()
        invariant
            i <= links@.len(),
            next@ == old(next)@ + fresh_targets(links@, seen@, i as int),
        decreases links@.len() - i,
    {
        let l = &links[i];
        if link_type_in_closure(&l.link_type) {
            match object_id_from_bytes(l.target.as_slice()) {
                Some(t) => {
                    if !contains_id(seen, t) {
                        next.push(t);
                    }
                },
                None => {},
            }
        }
        assert(next@ =~= old(next)@ + fresh_targets(links@, seen@, i + 1));
        i = i + 1;
    }
}

impl Catalog {
    /// Visit one level of a traversal; returns the next level.
    fn visit_level(&self, q: &Vec<ObjectID>, visited: &mut Vec<ObjectID>) -> (next: Vec<ObjectID>)
        ensures
            (final(visited)@, next@) == self.visit_prefix(q@, old(visited)@, q@.len() as int),
    {
        let mut next: Vec<ObjectID> = Vec::new();
        let mut i: usize = 0;
        while i < q.len()
            invariant
                i <= q@.len(),
                (visited@, next@) == self.visit_prefix(q@, old(visited)@, i as int),
            decreases q@.len() - i,
        {
            let x = q[i];
            if !contains_id(visited, x) {
                visited.push(x);
                match self.find_object(x) {
                    Some(k) => {
                        proof {
                            lemma_first_key(object_keys(self.objects@), x, k as int);
                        }
                        push_fresh_targets(&self.objects[k].links, visited, &mut next);
                    },
                    None => {
                        proof {
                            lemma_no_key(object_keys(self.objects@), x);
                        }
                        assert(next@ =~= next@ + Seq::<ObjectID>::empty());
                    },
                }
            }
            i = i + 1;
        }
        next
    }

    /// The closure of a reference (see `closure_of`); `TraversalDepthExceeded`
    /// when the traversal reaches the depth limit.
    pub fn closure(&self, root: &ObjectRef) -> (r: Result<Vec<ObjectID>, LatticeError>)
        ensures
            match self.closure_of(root@) {
                Ok(s) => r matches Ok(v) && v@ == s,
                Err(f) => r matches Err(e) && failure_matches(e, f),
            },
    {
        match self.resolve_object_ref(root) {
            Ok(v) => self.closure_from_roots(v),
            Err(e) => Err(e),
        }
    }

    /// Everything reached from these roots (see `closure_from`).
    pub fn closure_from_roots(&self, roots: Vec<ObjectID>) -> (r: Result<Vec<ObjectID>, LatticeError>)
        ensures
            match self.closure_from(roots@) {
                Ok(s) => r matches Ok(v) && v@ == s,
                Err(f) => r matches Err(e) && failure_matches(e, f),
            },
    {
        let ghost roots_seq = roots@;
        let mut visited: Vec<ObjectID> = Vec::new();
        let mut queue = roots;
        let mut depth: usize = 0;
        while queue.len() > 0 && depth < MAX_TRAVERSAL_DEPTH
            invariant
                depth <= 10,
                self.traverse(queue@, visited@, depth as nat) == self.traverse(roots_seq, seq![], 0),
            decreases 10 - depth,
        {
            let next = self.visit_level(&queue, &mut visited);
            queue = next;
            depth = depth + 1;
        }
        if depth >= MAX_TRAVERSAL_DEPTH {
            return Err(LatticeError::TraversalDepthExceeded { max: MAX_TRAVERSAL_DEPTH });
        }
        Ok(visited)
    }
}


/// A key that occurs has a first position.
pub proof fn lemma_exists_first<K>(keys: Seq<K>, k: K, j: int)
    requires
        0 <= j < keys.len(),
        keys[j] == k,
    ensures
        exists|i: int| is_first_key(keys, k, i),
    decreases j,
{
    if exists|q: int| 0 <= q < j && keys[q] == k {
        let q = choose|q: int| 0 <= q < j && keys[q] == k;
        lemma_exists_first(keys, k, q);
    } else {
        assert(is_first_key(keys, k, j));
    }
}

/// The first position of a key is unchanged by appending a different key.
pub proof fn lemma_first_key_push<K>(keys: Seq<K>, knew: K, k: K)
    requires
        k != knew,
    ensures
        first_key_pos(keys.push(knew), k) == first_key_pos(keys, k),
{
    let t = keys.push(knew);
    if exists|i: int| is_first_key(keys, k, i) {
        let i = choose|i: int| is_first_key(keys, k, i);
        assert(is_first_key(t, k, i)) by {
            assert forall|j: int| 0 <= j < i implies t[j] != k by {
                assert(t[j] == keys[j]);
            }
        }
        lemma_first_key(t, k, i);
        lemma_first_key(keys, k, i);
    } else {
        assert forall|j: int| 0 <= j < t.len() implies t[j] != k by {
            if j < keys.len() {
                if keys[j] == k {
                    lemma_exists_first(keys, k, j);
                }
            }
        }
        lemma_no_key(t, k);
    }
}

impl Catalog {
    /// Store an object under its identifier, replacing any stored under it.
    pub fn store_object(&mut self, object: Object)
        ensures
            final(self).object(object.id) == Some(object),
            forall|id: ObjectID| id != object.id ==> #[trigger] final(self).object(id) == old(self).object(id),
            final(self).versions == old(self).versions,
            final(self).aliases == old(self).aliases,
            final(self).tag_index == old(self).tag_index,
    {
        let id = object.id;
        match self.find_object(id) {
            Some(i) => {
                let ghost before = self.objects@;
                self.objects.set(i, object);
                proof {
                    assert(object_keys(self.objects@) =~= object_keys(before));
                    lemma_first_key(object_keys(before), id, i as int);
                }
            },
            None => {
                let ghost before = self.objects@;
                self.objects.push(object);
                proof {
                    let keys = object_keys(before);
                    assert(object_keys(self.objects@) =~= keys.push(id));
                    assert(is_first_key(keys.push(id), id, keys.len() as int)) by {
                        assert forall|j: int| 0 <= j < keys.len() implies keys.push(id)[j] != id by {
                            assert(before[j].id != id);
                        }
                    }
                    lemma_first_key(keys.push(id), id, keys.len() as int);
                    assert forall|k: ObjectID| k != id implies #[trigger] self.object(k) == old(self).object(k) by {
                        lemma_first_key_push(keys, id, k);
                        if let Some(p) = first_key_pos(keys, k) {
                            let q = choose|q: int| is_first_key(keys, k, q);
                            assert(self.objects@[p] == before[p]);
                        }
                    }
                }
            },
        }
    }

    /// Store a version under its identifier, replacing any stored under it.
    pub fn store_version(&mut self, version: Version)
        ensures
            final(self).version(version.id) == Some(version),
            forall|id: VersionID| id != version.id ==> #[trigger] final(self).version(id) == old(self).version(id),
            final(self).objects == old(self).objects,
            final(self).aliases == old(self).aliases,
            final(self).tag_index == old(self).tag_index,
    {
        let id = version.id;
        match self.find_version(id) {
            Some(i) => {
                let ghost before = self.versions@;
                self.versions.set(i, version);
                proof {
                    assert(version_keys(self.versions@) =~= version_keys(before));
                    lemma_first_key(version_keys(before), id, i as int);
                }
            },
            None => {
                let ghost before = self.versions@;
                self.versions.push(version);
                proof {
                    let keys = version_keys(before);
                    assert(version_keys(self.versions@) =~= keys.push(id));
                    assert(is_first_key(keys.push(id), id, keys.len() as int)) by {
                        assert forall|j: int| 0 <= j < keys.len() implies keys.push(id)[j] != id by {
                            assert(before[j].id != id);
                        }
                    }
                    lemma_first_key(keys.push(id), id, keys.len() as int);
                    assert forall|k: VersionID| k != id implies #[trigger] self.version(k) == old(self).version(k) by {
                        lemma_first_key_push(keys, id, k);
                        if let Some(p) = first_key_pos(keys, k) {
                            let q = choose|q: int| is_first_key(keys, k, q);
                            assert(self.versions@[p] == before[p]);
                        }
                    }
                }
            },
        }
    }

    /// Point an alias at the bytes of an object identifier, replacing what
    /// it named before.
    pub fn set_alias(&mut self, alias: &str, object_id: &[u8])
        ensures
            final(self).alias(alias@) == Some(object_id@),
            forall|name: Seq<char>| name != alias@ ==> #[trigger] final(self).alias(name) == old(self).alias(name),
            final(self).objects == old(self).objects,
            final(self).versions == old(self).versions,
            final(self).tag_index == old(self).tag_index,
    {
        let mut bytes: Vec<u8> = Vec::new();
        let mut b: usize = 0;
        while b < object_id.len()
            invariant
                b <= object_id@.len(),
                bytes@ == object_id@.take(b as int),
            decreases object_id@.len() - b,
        {
            bytes.push(object_id[b]);
            assert(bytes@ =~= object_id@.take(b + 1));
            b = b + 1;
        }
        assert(bytes@ =~= object_id@);
        let ghost before = self.aliases@;
        let ghost keys = alias_keys(before);
        let mut i: usize = 0;
        while i < self.aliases.len()
            invariant
                i <= self.aliases@.len(),
                self.aliases@ == before,
                keys == alias_keys(before),
                self.objects == old(self).objects,
                self.versions == old(self).versions,
                self.tag_index == old(self).tag_index,
                before == old(self).aliases@,
                bytes@ == object_id@,
                forall|j: int| 0 <= j < i ==> #[trigger] keys[j] != alias@,
            decreases self.aliases@.len() - i,
        {
            if str_eq(self.aliases[i].0.as_str(), alias) {
                let entry = (string_of(alias), bytes);
                self.aliases.set(i, entry);
                proof {
                    assert(alias_keys(self.aliases@) =~= keys);
                    lemma_first_key(keys, alias@, i as int);
                }
                return;
            }
            i = i + 1;
        }
        self.aliases.push((string_of(alias), bytes));
        proof {
            assert(alias_keys(self.aliases@) =~= keys.push(alias@));
            assert(is_first_key(keys.push(alias@), alias@, keys.len() as int));
            lemma_first_key(keys.push(alias@), alias@, keys.len() as int);
            assert forall|k: Seq<char>| k != alias@ implies #[trigger] self.alias(k) == old(self).alias(k) by {
                lemma_first_key_push(keys, alias@, k);
                if let Some(p) = first_key_pos(keys, k) {
                    assert(self.aliases@[p] == before[p]);
                }
            }
        }
    }
}


/// Whether two byte strings are equal.
pub(crate) fn bytes_equal(a: &[u8], b: &[u8]) -> (r: bool)
    ensures
        r == (a@ == b@),
{
    if a.len() != b.len() {
        return false;
    }
    let mut i: usize = 0;
    while i < a.len()
        invariant
            i <= a@.len(),
            a@.len() == b@.len(),
            forall|j: int| 0 <= j < i ==> a@[j] == b@[j],
        decreases a@.len() - i,
    {
        if a[i] != b[i] {
            return false;
        }
        i = i + 1;
    }
    assert(a@ =~= b@);
    true
}

/// A copy of some bytes.
fn copy_bytes(b: &[u8]) -> (r: Vec<u8>)
    ensures
        r@ == b@,
{
    let mut out: Vec<u8> = Vec::new();
    let mut i: usize = 0;
    while i < b.len()
        invariant
            i <= b@.len(),
            out@ == b@.take(i as int),
        decreases b@.len() - i,
    {
        out.push(b[i]);
        assert(out@ =~= b@.take(i + 1));
        i = i + 1;
    }
    assert(out@ =~= b@);
    out
}

impl Catalog {
    /// Record in the tag index that an object carries a tag, unless it is
    /// recorded already.
    pub fn add_to_tag_index(&mut self, tag: &str, object_id: &[u8])
        ensures
            final(self).tagged(tag@) == if old(self).tagged(tag@).contains(object_id@) {
                old(self).tagged(tag@)
            } else {
                old(self).tagged(tag@).push(object_id@)
            },
            forall|key: Seq<char>| key != tag@ ==> #[trigger] final(self).tagged(key) == old(self).tagged(key),
            final(self).objects == old(self).objects,
            final(self).versions == old(self).versions,
            final(self).aliases == old(self).aliases,
    {
        let ghost before = self.tag_index@;
        let ghost keys = tag_keys(before);
        let mut i: usize = 0;
        while i < self.tag_index.len()
            invariant
                i <= self.tag_index@.len(),
                self.tag_index@ == before,
                keys == tag_keys(before),
                before == old(self).tag_index@,
                self.objects == old(self).objects,
                self.versions == old(self).versions,
                self.aliases == old(self).aliases,
                forall|j: int| 0 <= j < i ==> #[trigger] keys[j] != tag@,
            decreases self.tag_index@.len() - i,
        {
            if str_eq(self.tag_index[i].0.as_str(), tag) {
                proof {
                    lemma_first_key(keys, tag@, i as int);
                }
                let ghost ids = byte_views(before[i as int].1@);
                let mut present = false;
                let mut j: usize = 0;
                while j < self.tag_index[i].1.len()
                    invariant
                        i < self.tag_index@.len(),
                        self.tag_index@ == before,
                        ids == byte_views(before[i as int].1@),
                        j <= ids.len(),
                        present == ids.take(j as int).contains(object_id@),
                    decreases ids.len() - j,
                {
                    proof {
                        assert(ids.take(j + 1) =~= ids.take(j as int).push(ids[j as int]));
                        if ids.take(j + 1).contains(object_id@) && !ids.take(j as int).contains(object_id@) {
                            let k = choose|k: int| 0 <= k < j + 1 && #[trigger] ids.take(j + 1)[k] == object_id@;
                            if k < j {
                                assert(ids.take(j as int)[k] == object_id@);
                            }
                        }
                        if ids.take(j as int).contains(object_id@) {
                            let k = choose|k: int| 0 <= k < j && #[trigger] ids.take(j as int)[k] == object_id@;
                            assert(ids.take(j + 1)[k] == object_id@);
                        }
                    }
                    if bytes_equal(self.tag_index[i].1[j].as_slice(), object_id) {
                        present = true;
                        assert(ids.take(j + 1)[j as int] == object_id@);
                    }
                    j = j + 1;
                }
                assert(ids.take(j as int) =~= ids);
                if !present {
                    let mut entry: (String, Vec<Vec<u8>>) = (String::new(), Vec::new());
                    std::mem::swap(&mut entry, &mut self.tag_index[i]);
                    assert(entry == before[i as int]);
                    entry.1.push(copy_bytes(object_id));
                    let ghost e = entry;
                    self.tag_index.set(i, entry);
                    proof {
                        assert(tag_keys(self.tag_index@) =~= keys);
                        assert(byte_views(e.1@) =~= ids.push(object_id@));
                        assert forall|k: Seq<char>| k != tag@ implies #[trigger] self.tagged(k) == old(self).tagged(k) by {
                            if let Some(p) = first_key_pos(keys, k) {
                                let q = choose|q: int| is_first_key(keys, k, q);
                                assert(p != i);
                                assert(self.tag_index@[p] == before[p]);
                            }
                        }
                    }
                }
                return;
            }
            i = i + 1;
        }
        let ids: Vec<Vec<u8>> = vec![copy_bytes(object_id)];
        self.tag_index.push((string_of(tag), ids));
        proof {
            lemma_no_key(keys, tag@);
            assert(tag_keys(self.tag_index@) =~= keys.push(tag@));
            assert(is_first_key(keys.push(tag@), tag@, keys.len() as int));
            lemma_first_key(keys.push(tag@), tag@, keys.len() as int);
            assert(byte_views(ids@) =~= Seq::<Seq<u8>>::empty().push(object_id@));
            assert forall|k: Seq<char>| k != tag@ implies #[trigger] self.tagged(k) == old(self).tagged(k) by {
                lemma_first_key_push(keys, tag@, k);
                if let Some(p) = first_key_pos(keys, k) {
                    assert(self.tag_index@[p] == before[p]);
                }
            }
        }
    }
}

} // verus!
