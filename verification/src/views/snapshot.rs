//! Snapshots of views: fixed lists of objects, with a hash over the list
//! for integrity, and the difference between two snapshots.

use vstd::prelude::*;
use crate::model::object::{new_uuid_v4, u128_be_bytes, uuid_text, uuid_to_string, ObjectID};
use crate::model::tag::{timestamp_now, Timestamp};
use crate::storage::content::{blake3_digest, blake3_hash};
use crate::text::string_of;
use crate::views::ViewID;

verus! {

/// The identifier of a snapshot: a UUID, held as its 128-bit value.
#[derive(Debug, Clone, Copy, PartialEq, Eq, Hash, Structural)]
pub struct SnapshotID(pub u128);

impl SnapshotID {
    /// A fresh random identifier.
    pub fn new() -> (r: SnapshotID) {
        SnapshotID(new_uuid_v4())
    }

    /// The UUID value.
    pub fn as_uuid(&self) -> (r: u128)
        ensures
            r == self.0,
    {
        self.0
    }

    /// The hyphenated text of the UUID (what `Display` prints).
    pub fn to_string(&self) -> (r: String)
        ensures
            r@ == uuid_text(self.0),
    {
        uuid_to_string(self.0)
    }
}

/// The bytes of a list of objects: each identifier's 16 bytes in turn.
pub open spec fn ids_bytes(ids: Seq<ObjectID>) -> Seq<u8>
    decreases ids.len(),
{
    if ids.len() == 0 {
        Seq::empty()
    } else {
        ids_bytes(ids.drop_last()) + u128_be_bytes(ids.last().0)
    }
}

/// The integrity hash of a list of objects: BLAKE3 over their bytes.
pub open spec fn snapshot_hash(ids: Seq<ObjectID>) -> Seq<u8> {
    blake3_digest(ids_bytes(ids))
}

/// The integrity hash of a list of objects.
pub fn compute_hash(object_ids: &[ObjectID]) -> (r: [u8; 32])
    ensures
        r@ == snapshot_hash(object_ids@),
{
    let mut data: Vec<u8> = Vec::new();
    let mut i: usize = 0;
    while i < object_ids.len()
        invariant
            i <= object_ids@.len(),
            data@ == ids_bytes(object_ids@.take(i as int)),
        decreases object_ids@.len() - i,
    {
        let b = object_ids[i].to_bytes();
        let ghost before = data@;
        let mut k: usize = 0;
        while k < 16
            invariant
                k <= 16,
                b@.len() == 16,
                data@ == before + b@.take(k as int),
            decreases 16 - k,
        {
            data.push(b[k]);
            assert(data@ =~= before + b@.take(k + 1));
            k = k + 1;
        }
        assert(b@.take(16) =~= b@);
        assert(object_ids@.take(i + 1).drop_last() =~= object_ids@.take(i as int));
        i = i + 1;
    }
    assert(object_ids@.take(object_ids@.len() as int) =~= object_ids@);
    blake3_hash(data.as_slice())
}

/// A fixed list of objects taken from a view at some time.
#[derive(Debug, Clone)]
pub struct ViewSnapshot {
    pub id: SnapshotID,
    /// The view the snapshot was taken from.
    pub source_view: Option<ViewID>,
    pub name: String,
    /// The query that produced the objects.
    pub query: String,
    pub created_at: Timestamp,
    pub created_by: [u8; 32],
    /// The objects, in order.
    pub object_ids: Vec<ObjectID>,
    pub description: Option<String>,
    /// The integrity hash of the objects.
    pub content_hash: [u8; 32],
}

/// The difference from one snapshot to another.
#[derive(Debug, Clone)]
pub struct SnapshotDiff {
    pub from: SnapshotID,
    pub to: SnapshotID,
    /// Objects only in the second snapshot, each once.
    pub added: Vec<ObjectID>,
    /// Objects only in the first snapshot, each once.
    pub removed: Vec<ObjectID>,
    /// How many distinct objects both hold.
    pub common_count: usize,
}

/// The distinct objects of `a` that `b` does not hold, in first-seen order.
fn only_in(a: &Vec<ObjectID>, b: &Vec<ObjectID>) -> (r: Vec<ObjectID>)
    ensures
        r@.no_duplicates(),
        forall|x: ObjectID| r@.contains(x) <==> (a@.contains(x) && !b@.contains(x)),
{
    let mut out: Vec<ObjectID> = Vec::new();
    let mut i: usize = 0;
    while i < a.len()
        invariant
            i <= a@.len(),
            out@.no_duplicates(),
            forall|x: ObjectID| out@.contains(x) <==> (a@.take(i as int).contains(x) && !b@.contains(x)),
        decreases a@.len() - i,
    {
        let x = a[i];
        let ghost before = out@;
        let keep = !contains_id(b, x) && !contains_id(&out, x);
        if keep {
            out.push(x);
        }
        let ghost t0 = a@.take(i as int);
        let ghost t1 = a@.take(i + 1);
        assert(t1[i as int] == x);
        assert(keep ==> out@ == before.push(x));
        assert(!keep ==> out@ == before);
        assert(keep ==> out@[before.len() as int] == x);
        assert forall|y: ObjectID| out@.contains(y) <==> (t1.contains(y) && !b@.contains(y)) by {
            if t1.contains(y) && !b@.contains(y) && y == x && keep {
                assert(out@[before.len() as int] == y);
            }
            if t1.contains(y) && !b@.contains(y) && y == x && !keep {
                assert(before.contains(x));
            }
            if t1.contains(y) {
                let j = choose|j: int| 0 <= j < t1.len() && t1[j] == y;
                if j < i {
                    assert(t0[j] == y);
                }
            }
            if t0.contains(y) {
                let j = choose|j: int| 0 <= j < t0.len() && t0[j] == y;
                assert(t1[j] == y);
            }
            if out@.contains(y) && !before.contains(y) {
                assert(out@.last() == y);
            }
            if before.contains(y) {
                let j = choose|j: int| 0 <= j < before.len() && before[j] == y;
                assert(out@[j] == y);
            }
            assert(t1[i as int] == x);
        }
        i = i + 1;
    }
    assert(a@.take(a@.len() as int) =~= a@);
    out
}

/// The distinct objects of `a` that `b` holds too.
fn in_both(a: &Vec<ObjectID>, b: &Vec<ObjectID>) -> (r: Vec<ObjectID>)
    ensures
        r@.no_duplicates(),
        forall|x: ObjectID| r@.contains(x) <==> (a@.contains(x) && b@.contains(x)),
{
    let mut out: Vec<ObjectID> = Vec::new();
    let mut i: usize = 0;
    while i < a.len()
        invariant
            i <= a@.len(),
            out@.no_duplicates(),
            forall|x: ObjectID| out@.contains(x) <==> (a@.take(i as int).contains(x) && b@.contains(x)),
        decreases a@.len() - i,
    {
        let x = a[i];
        let ghost before = out@;
        let keep = contains_id(b, x) && !contains_id(&out, x);
        if keep {
            out.push(x);
        }
        let ghost t0 = a@.take(i as int);
        let ghost t1 = a@.take(i + 1);
        assert(t1[i as int] == x);
        assert(keep ==> out@ == before.push(x));
        assert(!keep ==> out@ == before);
        assert(keep ==> out@[before.len() as int] == x);
        assert forall|y: ObjectID| out@.contains(y) <==> (t1.contains(y) && b@.contains(y)) by {
            if t1.contains(y) && b@.contains(y) && y == x && keep {
                assert(out@[before.len() as int] == y);
            }
            if t1.contains(y) && b@.contains(y) && y == x && !keep {
                assert(before.contains(x));
            }
            if t1.contains(y) {
                let j = choose|j: int| 0 <= j < t1.len() && t1[j] == y;
                if j < i {
                    assert(t0[j] == y);
                }
            }
            if t0.contains(y) {
                let j = choose|j: int| 0 <= j < t0.len() && t0[j] == y;
                assert(t1[j] == y);
            }
            if out@.contains(y) && !before.contains(y) {
                assert(out@.last() == y);
            }
            if before.contains(y) {
                let j = choose|j: int| 0 <= j < before.len() && before[j] == y;
                assert(out@[j] == y);
            }
            assert(t1[i as int] == x);
        }
        i = i + 1;
    }
    assert(a@.take(a@.len() as int) =~= a@);
    out
}

/// Whether a list holds an object.
fn contains_id(v: &Vec<ObjectID>, id: ObjectID) -> (r: bool)
    ensures
        r == v@.contains(id),
{
    let mut i: usize = 0;
    while i < v.len()
        invariant
            i <= v@.len(),
            forall|j: int| 0 <= j < i ==> v@[j] != id,
        decreases v@.len() - i,
    {
        if v[i] == id {
            return true;
        }
        i = i + 1;
    }
    false
}

impl ViewSnapshot {
    /// A snapshot of objects taken at `now`, with its integrity hash.
    pub fn new_at(
        name: String,
        query: String,
        object_ids: Vec<ObjectID>,
        created_by: [u8; 32],
        id: SnapshotID,
        now: Timestamp,
    ) -> (r: ViewSnapshot)
        ensures
            r.id == id,
            r.source_view is None,
            r.name@ == name@,
            r.query@ == query@,
            r.created_at == now,
            r.created_by == created_by,
            r.object_ids@ == object_ids@,
            r.description is None,
            r.content_hash@ == snapshot_hash(object_ids@),
    {
        let content_hash = compute_hash(object_ids.as_slice());
        ViewSnapshot {
            id,
            source_view: None,
            name,
            query,
            created_at: now,
            created_by,
            object_ids,
            description: None,
            content_hash,
        }
    }

    /// A snapshot of objects taken now, with a fresh identifier.
    pub fn new(name: String, query: String, object_ids: Vec<ObjectID>, created_by: [u8; 32]) -> (r: ViewSnapshot)
        ensures
            r.source_view is None,
            r.name@ == name@,
            r.query@ == query@,
            r.created_by == created_by,
            r.object_ids@ == object_ids@,
            r.description is None,
            r.content_hash@ == snapshot_hash(object_ids@),
    {
        ViewSnapshot::new_at(name, query, object_ids, created_by, SnapshotID::new(), timestamp_now())
    }

    /// A snapshot of a view's objects taken at `now`: named after the view
    /// with ` (snapshot)`, with its query and description.
    pub fn from_view_at(
        view: &crate::views::View,
        object_ids: Vec<ObjectID>,
        created_by: [u8; 32],
        id: SnapshotID,
        now: Timestamp,
    ) -> (r: ViewSnapshot)
        ensures
            r.id == id,
            r.source_view == Some(view.id),
            r.name@ == view.name@ + " (snapshot)"@,
            r.query@ == view.query@,
            r.created_at == now,
            r.created_by == created_by,
            r.object_ids@ == object_ids@,
            r.description == view.description,
            r.content_hash@ == snapshot_hash(object_ids@),
    {
        let content_hash = compute_hash(object_ids.as_slice());
        let mut name = view.name.clone();
        name.append(" (snapshot)");
        ViewSnapshot {
            id,
            source_view: Some(view.id),
            name,
            query: view.query.clone(),
            created_at: now,
            created_by,
            object_ids,
            description: clone_opt(&view.description),
            content_hash,
        }
    }

    /// A snapshot of a view's objects taken now.
    pub fn from_view(view: &crate::views::View, object_ids: Vec<ObjectID>, created_by: [u8; 32]) -> (r: ViewSnapshot)
        ensures
            r.source_view == Some(view.id),
            r.name@ == view.name@ + " (snapshot)"@,
            r.query@ == view.query@,
            r.object_ids@ == object_ids@,
            r.content_hash@ == snapshot_hash(object_ids@),
    {
        ViewSnapshot::from_view_at(view, object_ids, created_by, SnapshotID::new(), timestamp_now())
    }

    /// The snapshot with a description.
    pub fn with_description(self, description: String) -> (r: ViewSnapshot)
        ensures
            r.description matches Some(d) && d@ == description@,
            r.object_ids == self.object_ids && r.content_hash == self.content_hash && r.id == self.id,
    {
        ViewSnapshot { description: Some(description), ..self }
    }

    /// The number of objects.
    pub fn len(&self) -> (r: usize)
        ensures
            r == self.object_ids@.len(),
    {
        self.object_ids.len()
    }

    /// Whether the snapshot holds no object.
    pub fn is_empty(&self) -> (r: bool)
        ensures
            r == (self.object_ids@.len() == 0),
    {
        self.object_ids.len() == 0
    }

    /// Whether the integrity hash matches the objects.
    pub fn verify_integrity(&self) -> (r: bool)
        ensures
            r == (snapshot_hash(self.object_ids@) == self.content_hash@),
    {
        let computed = compute_hash(self.object_ids.as_slice());
        let mut i: usize = 0;
        while i < 32
            invariant
                i <= 32,
                computed@ == snapshot_hash(self.object_ids@),
                forall|k: int| 0 <= k < i ==> computed@[k] == self.content_hash@[k],
            decreases 32 - i,
        {
            if computed[i] != self.content_hash[i] {
                return false;
            }
            i = i + 1;
        }
        assert(computed@ =~= self.content_hash@);
        true
    }

    /// Whether the snapshot holds an object.
    pub fn contains(&self, object_id: &ObjectID) -> (r: bool)
        ensures
            r == self.object_ids@.contains(*object_id),
    {
        contains_id(&self.object_ids, *object_id)
    }

    /// The objects, in order.
    pub fn iter(&self) -> (r: std::slice::Iter<'_, ObjectID>)
        ensures
            vstd::std_specs::slice::into_iter_elts(r) == self.object_ids@,
    {
        self.object_ids.iter()
    }

    /// The difference to another snapshot: what it adds, what it lacks,
    /// and how many distinct objects both hold.
    pub fn diff(&self, other: &ViewSnapshot) -> (r: SnapshotDiff)
        ensures
            r.from == self.id,
            r.to == other.id,
            r.added@.no_duplicates(),
            forall|x: ObjectID| r.added@.contains(x) <==> (other.object_ids@.contains(x) && !self.object_ids@.contains(x)),
            r.removed@.no_duplicates(),
            forall|x: ObjectID| r.removed@.contains(x) <==> (self.object_ids@.contains(x) && !other.object_ids@.contains(x)),
            r.common_count == self.object_ids@.to_set().intersect(other.object_ids@.to_set()).len(),
    {
        let added = only_in(&other.object_ids, &self.object_ids);
        let removed = only_in(&self.object_ids, &other.object_ids);
        let common = in_both(&self.object_ids, &other.object_ids);
        proof {
            common@.unique_seq_to_set();
            assert(common@.to_set() =~= self.object_ids@.to_set().intersect(other.object_ids@.to_set()));
        }
        SnapshotDiff { from: self.id, to: other.id, added, removed, common_count: common.len() }
    }
}

/// A copy of an optional text.
fn clone_opt(o: &Option<String>) -> (r: Option<String>)
    ensures
        r == *o,
{
    match o {
        Some(s) => {
            let c = s.clone();
            assert(c@ == s@);
            Some(c)
        },
        None => None,
    }
}

impl SnapshotDiff {
    /// Whether nothing was added or removed.
    pub fn is_empty(&self) -> (r: bool)
        ensures
            r == (self.added@.len() == 0 && self.removed@.len() == 0),
    {
        self.added.len() == 0 && self.removed.len() == 0
    }

    /// How many objects were added or removed.
    pub fn change_count(&self) -> (r: usize)
        requires
            self.added@.len() + self.removed@.len() <= usize::MAX,
        ensures
            r == self.added@.len() + self.removed@.len(),
    {
        self.added.len() + self.removed.len()
    }
}

} // verus!
