//! The registry of files the watcher follows, and where it is kept.

use vstd::prelude::*;
use crate::model::object::ObjectID;
use crate::model::tag::ActorID;
use crate::error::LatticeError;
use crate::model::object::Version;
use crate::query::catalog::{bytes_equal, lemma_first_key};
use crate::storage::content::{blake3_digest, compute_hash};
use crate::text::str_eq;

verus! {

/// The registry file of the watcher.
pub struct PersistentRegistry {
    path: String,
}

impl PersistentRegistry {
    /// A registry kept in the file at `path`.
    pub fn new(path: String) -> (r: PersistentRegistry)
        ensures
            r.file()@ == path@,
    {
        PersistentRegistry { path }
    }

    /// The file's path.
    pub closed spec fn file(&self) -> String {
        self.path
    }

    /// The file's path.
    pub fn path(&self) -> (r: &str)
        ensures
            r@ == self.file()@,
    {
        self.path.as_str()
    }
}


/// A file being watched for changes, on behalf of an object.
#[derive(Debug, Clone)]
pub struct WatchEntry {
    pub temp_path: String,
    pub object_id: ObjectID,
    pub actor_id: ActorID,
    pub original_hash: [u8; 32],
    pub last_known_hash: [u8; 32],
    pub display_name: String,
    pub registered_at: i64,
}

/// The paths of entries.
pub open spec fn entry_paths(es: Seq<WatchEntry>) -> Seq<Seq<char>> {
    es.map_values(|e: WatchEntry| e.temp_path@)
}

/// The position of an entry for a path.
pub open spec fn entry_pos(es: Seq<WatchEntry>, path: Seq<char>) -> int {
    choose|i: int| 0 <= i < es.len() && es[i].temp_path@ == path
}

/// Entries by path.
pub open spec fn entries_view(es: Seq<WatchEntry>) -> Map<Seq<char>, WatchEntry> {
    Map::new(
        |path: Seq<char>| exists|i: int| 0 <= i < es.len() && es[i].temp_path@ == path,
        |path: Seq<char>| es[entry_pos(es, path)],
    )
}

/// With distinct paths, each entry is what its path maps to.
proof fn lemma_view_at(es: Seq<WatchEntry>, i: int)
    requires
        entry_paths(es).no_duplicates(),
        0 <= i < es.len(),
    ensures
        entries_view(es).dom().contains(es[i].temp_path@),
        entries_view(es)[es[i].temp_path@] == es[i],
{
    let k = entry_pos(es, es[i].temp_path@);
    assert(0 <= k < es.len() && es[k].temp_path@ == es[i].temp_path@);
    if k != i {
        assert(entry_paths(es)[k] == entry_paths(es)[i]);
    }
}

/// The watched files, each path at most once.
pub struct WatchRegistry {
    entries: Vec<WatchEntry>,
}

impl WatchRegistry {
    #[verifier::type_invariant]
    spec fn paths_distinct(&self) -> bool {
        entry_paths(self.entries@).no_duplicates()
    }

    /// The position of the entry for a path.
    closed spec fn pos(&self, path: Seq<char>) -> int {
        entry_pos(self.entries@, path)
    }

    /// The entries by path.
    pub closed spec fn view(&self) -> Map<Seq<char>, WatchEntry> {
        entries_view(self.entries@)
    }

    /// An empty registry.
    pub fn new() -> (r: WatchRegistry)
        ensures
            r.view() == Map::<Seq<char>, WatchEntry>::empty(),
    {
        let r = WatchRegistry { entries: Vec::new() };
        assert(r.view() =~= Map::<Seq<char>, WatchEntry>::empty());
        r
    }

    /// Where the entry for a path is, if there is one.
    fn find(&self, path: &str) -> (r: Option<usize>)
        ensures
            match r {
                Some(i) => i < self.entries@.len() && self.entries@[i as int].temp_path@ == path@ && self.pos(path@)
                    == i,
                None => !self.view().dom().contains(path@),
            },
    {
        proof {
            use_type_invariant(self);
        }
        let mut i: usize = 0;
        while i < self.entries.len()
            invariant
                i <= self.entries@.len(),
                entry_paths(self.entries@).no_duplicates(),
                forall|j: int| 0 <= j < i ==> self.entries@[j].temp_path@ != path@,
            decreases self.entries@.len() - i,
        {
            if str_eq(self.entries[i].temp_path.as_str(), path) {
                proof {
                    let k = self.pos(path@);
                    assert(0 <= k < self.entries@.len() && self.entries@[k].temp_path@ == path@);
                    if k != i {
                        assert(entry_paths(self.entries@)[k] == entry_paths(self.entries@)[i as int]);
                    }
                }
                return Some(i);
            }
            i = i + 1;
        }
        None
    }

    /// Watch a file; an entry for the same path is replaced.
    pub fn register(&mut self, entry: WatchEntry)
        ensures
            final(self).view() == old(self).view().insert(entry.temp_path@, entry),
    {
        proof {
            use_type_invariant(&*self);
        }
        let ghost before = self.entries@;
        let ghost old_view = self.view();
        let ghost path = entry.temp_path@;
        match self.find(entry.temp_path.as_str()) {
            Some(i) => {
                let mut entries = Vec::new();
                std::mem::swap(&mut entries, &mut self.entries);
                entries.set(i, entry);
                proof {
                    assert(entry_paths(entries@) =~= entry_paths(before));
                }
                self.entries = entries;
                proof {
                    assert forall|k: Seq<char>| #[trigger] self.view().dom().contains(k) == old_view.insert(path, entry).dom().contains(k) by {
                        if self.view().dom().contains(k) {
                            let j = choose|j: int| 0 <= j < self.entries@.len() && self.entries@[j].temp_path@ == k;
                            if j != i {
                                assert(before[j].temp_path@ == k);
                            }
                        }
                        if old_view.dom().contains(k) {
                            let j = choose|j: int| 0 <= j < before.len() && before[j].temp_path@ == k;
                            if j != i {
                                assert(self.entries@[j].temp_path@ == k);
                            } else {
                                assert(self.entries@[j].temp_path@ == path);
                            }
                        }
                        if k == path {
                            assert(self.entries@[i as int].temp_path@ == k);
                        }
                    }
                    assert forall|k: Seq<char>| #[trigger] self.view().dom().contains(k) implies self.view()[k] == old_view.insert(path, entry)[k] by {
                        let j = self.pos(k);
                        assert(0 <= j < self.entries@.len() && self.entries@[j].temp_path@ == k);
                        if k == path {
                            if j != i {
                                assert(entry_paths(self.entries@)[j] == entry_paths(self.entries@)[i as int]);
                            }
                        } else {
                            assert(j != i);
                            let m = choose|m: int| 0 <= m < before.len() && before[m].temp_path@ == k;
                            let oj = old(self).pos(k);
                            assert(0 <= oj < before.len() && before[oj].temp_path@ == k);
                            if oj != j {
                                assert(entry_paths(before)[oj] == entry_paths(before)[j]);
                            }
                        }
                    }
                    assert(self.view() =~= old_view.insert(path, entry));
                }
            },
            None => {
                let mut entries = Vec::new();
                std::mem::swap(&mut entries, &mut self.entries);
                entries.push(entry);
                proof {
                    assert(entry_paths(entries@) =~= entry_paths(before).push(path));
                    assert forall|a: int, b: int| 0 <= a < b < entry_paths(entries@).len() implies entry_paths(entries@)[a] != entry_paths(entries@)[b] by {
                        if b == before.len() {
                            assert(before[a].temp_path@ != path) by {
                                if before[a].temp_path@ == path {
                                    assert(old_view.dom().contains(path));
                                }
                            }
                        } else {
                            assert(entry_paths(before)[a] != entry_paths(before)[b]);
                        }
                    }
                }
                self.entries = entries;
                proof {
                    assert forall|k: Seq<char>| #[trigger] self.view().dom().contains(k) == old_view.insert(path, entry).dom().contains(k) by {
                        if self.view().dom().contains(k) {
                            let j = choose|j: int| 0 <= j < self.entries@.len() && self.entries@[j].temp_path@ == k;
                            if j < before.len() {
                                assert(before[j].temp_path@ == k);
                            }
                        }
                        if old_view.dom().contains(k) {
                            let j = choose|j: int| 0 <= j < before.len() && before[j].temp_path@ == k;
                            assert(self.entries@[j].temp_path@ == k);
                        }
                        if k == path {
                            assert(self.entries@[before.len() as int].temp_path@ == k);
                        }
                    }
                    assert forall|k: Seq<char>| #[trigger] self.view().dom().contains(k) implies self.view()[k] == old_view.insert(path, entry)[k] by {
                        let j = self.pos(k);
                        assert(0 <= j < self.entries@.len() && self.entries@[j].temp_path@ == k);
                        if k == path {
                            if j < before.len() {
                                assert(old_view.dom().contains(path));
                            }
                        } else {
                            assert(j < before.len());
                            let oj = old(self).pos(k);
                            assert(0 <= oj < before.len() && before[oj].temp_path@ == k);
                            if oj != j {
                                assert(entry_paths(before)[oj] == entry_paths(before)[j]);
                            }
                        }
                    }
                    assert(self.view() =~= old_view.insert(path, entry));
                }
            },
        }
    }
}


/// A member of a filtered list passes the filter and comes from the list.
proof fn lemma_filter_member(es: Seq<WatchEntry>, pred: spec_fn(WatchEntry) -> bool, i: int)
    requires
        0 <= i < es.filter(pred).len(),
    ensures
        pred(es.filter(pred)[i]),
        exists|j: int| 0 <= j < es.len() && es[j] == es.filter(pred)[i],
{
    es.lemma_filter_pred(pred, i);
    assert(es.filter(pred).contains(es.filter(pred)[i]));
    es.lemma_filter_contains_rev(pred, es.filter(pred)[i]);
}

/// A member of the list that passes the filter is in the filtered list.
proof fn lemma_filter_keeps(es: Seq<WatchEntry>, pred: spec_fn(WatchEntry) -> bool, j: int)
    requires
        0 <= j < es.len(),
        pred(es[j]),
    ensures
        exists|i: int| 0 <= i < es.filter(pred).len() && (#[trigger] es.filter(pred)[i]).temp_path@ == es[j].temp_path@,
{
    es.lemma_filter_contains(pred, j);
    let i = choose|i: int| 0 <= i < es.filter(pred).len() && es.filter(pred)[i] == es[j];
    assert(es.filter(pred)[i].temp_path@ == es[j].temp_path@);
}

/// Filtering keeps paths distinct.
proof fn lemma_filter_distinct(es: Seq<WatchEntry>, pred: spec_fn(WatchEntry) -> bool)
    requires
        entry_paths(es).no_duplicates(),
    ensures
        entry_paths(es.filter(pred)).no_duplicates(),
    decreases es.len(),
{
    reveal(Seq::filter);
    if es.len() > 0 {
        let rest = es.drop_last();
        assert(entry_paths(rest).no_duplicates()) by {
            assert forall|a: int, b: int| 0 <= a < b < entry_paths(rest).len() implies entry_paths(rest)[a] != entry_paths(rest)[b] by {
                assert(entry_paths(es)[a] != entry_paths(es)[b]);
            }
        }
        lemma_filter_distinct(rest, pred);
        let f = rest.filter(pred);
        if pred(es.last()) {
            let g = f.push(es.last());
            assert(es.filter(pred) =~= g);
            assert forall|a: int, b: int| 0 <= a < b < entry_paths(g).len() implies entry_paths(g)[a] != entry_paths(g)[b] by {
                if b == f.len() {
                    assert(f.contains(f[a]));
                    rest.lemma_filter_contains_rev(pred, f[a]);
                    let j = choose|j: int| 0 <= j < rest.len() && rest[j] == f[a];
                    assert(entry_paths(es)[j] != entry_paths(es)[es.len() - 1]);
                } else {
                    assert(entry_paths(f)[a] != entry_paths(f)[b]);
                }
            }
        } else {
            assert(es.filter(pred) =~= f);
        }
    }
}

/// The view of a filtered list keeps what the filter keeps.
proof fn lemma_filter_view(es: Seq<WatchEntry>, keep: spec_fn(WatchEntry) -> bool)
    requires
        entry_paths(es).no_duplicates(),
    ensures
        entries_view(es.filter(keep)) == kept_view(entries_view(es), keep),
{
    let f = es.filter(keep);
    lemma_filter_distinct(es, keep);
    let m = entries_view(es);
    assert forall|k: Seq<char>| #[trigger] entries_view(f).dom().contains(k) == kept_view(m, keep).dom().contains(k) by {
        if entries_view(f).dom().contains(k) {
            let i = choose|i: int| 0 <= i < f.len() && f[i].temp_path@ == k;
            lemma_filter_member(es, keep, i);
            let j = choose|j: int| 0 <= j < es.len() && es[j] == f[i];
            lemma_view_at(es, j);
        }
        if kept_view(m, keep).dom().contains(k) {
            let j = entry_pos(es, k);
            lemma_view_at(es, j);
            lemma_filter_keeps(es, keep, j);
        }
    }
    assert forall|k: Seq<char>| #[trigger] entries_view(f).dom().contains(k) implies entries_view(f)[k] == kept_view(m, keep)[k] by {
        let i = entry_pos(f, k);
        lemma_view_at(f, i);
        lemma_filter_member(es, keep, i);
        let j = choose|j: int| 0 <= j < es.len() && es[j] == f[i];
        lemma_view_at(es, j);
    }
    assert(entries_view(f) =~= kept_view(m, keep));
}

/// A placeholder entry, for moving entries out of a list.
fn blank_entry() -> (r: WatchEntry)
    ensures
        r.temp_path@ == Seq::<char>::empty(),
        r.object_id == ObjectID(0),
        r.actor_id@ == seq![0u8; 32],
        r.original_hash@ == seq![0u8; 32],
        r.last_known_hash@ == seq![0u8; 32],
        r.display_name@ == Seq::<char>::empty(),
        r.registered_at == 0,
{
    WatchEntry {
        temp_path: String::new(),
        object_id: ObjectID(0),
        actor_id: [0u8; 32],
        original_hash: [0u8; 32],
        last_known_hash: [0u8; 32],
        display_name: String::new(),
        registered_at: 0,
    }
}

/// The entries of a registry that the predicate keeps, by path.
pub open spec fn kept_view(m: Map<Seq<char>, WatchEntry>, keep: spec_fn(WatchEntry) -> bool) -> Map<Seq<char>, WatchEntry> {
    m.restrict(Set::new(|k: Seq<char>| m.dom().contains(k) && keep(m[k])))
}

impl WatchRegistry {
    /// Take out the entries a predicate does not keep; they are returned in
    /// their order, the rest stay in theirs.
    fn split(&mut self, Ghost(keep): Ghost<spec_fn(WatchEntry) -> bool>, path: &str, object_id: ObjectID, by_path: bool) -> (removed: Vec<WatchEntry>)
        requires
            forall|e: WatchEntry| #[trigger] keep(e) == if by_path { e.temp_path@ != path@ } else { e.object_id != object_id },
        ensures
            final(self).view() == kept_view(old(self).view(), keep),
            forall|i: int| 0 <= i < removed@.len() ==> !keep(#[trigger] removed@[i]) && old(self).view().dom().contains(removed@[i].temp_path@)
                && old(self).view()[removed@[i].temp_path@] == removed@[i],
            forall|k: Seq<char>| old(self).view().dom().contains(k) && !keep(old(self).view()[k]) ==> exists|i: int| 0 <= i < removed@.len() && (#[trigger] removed@[i]).temp_path@ == k,
            entry_paths(removed@).no_duplicates(),
    {
        proof {
            use_type_invariant(&*self);
        }
        let ghost before = self.entries@;
        let mut pending: Vec<WatchEntry> = Vec::new();
        std::mem::swap(&mut pending, &mut self.entries);
        let mut kept: Vec<WatchEntry> = Vec::new();
        let mut removed: Vec<WatchEntry> = Vec::new();
        let n = pending.len();
        let mut i: usize = 0;
        while i < n
            invariant
                n == before.len(),
                pending@.len() == n,
                i <= n,
                entry_paths(before).no_duplicates(),
                forall|j: int| i <= j < n ==> pending@[j] == before[j],
                forall|e: WatchEntry| #[trigger] keep(e) == if by_path { e.temp_path@ != path@ } else { e.object_id != object_id },
                kept@ == before.take(i as int).filter(keep),
                removed@ == before.take(i as int).filter(|e: WatchEntry| !keep(e)),
            decreases n - i,
        {
            proof {
                assert(before.take(i + 1).drop_last() =~= before.take(i as int));
                reveal(Seq::filter);
            }
            let mut e = blank_entry();
            std::mem::swap(&mut e, &mut pending[i]);
            assert(e == before[i as int]);
            let stays = if by_path {
                !str_eq(e.temp_path.as_str(), path)
            } else {
                e.object_id.0 != object_id.0
            };
            if stays {
                kept.push(e);
            } else {
                removed.push(e);
            }
            i = i + 1;
        }
        assert(before.take(n as int) =~= before);
        proof {
            lemma_filter_distinct(before, keep);
            lemma_filter_distinct(before, |e: WatchEntry| !keep(e));
            lemma_filter_view(before, keep);
        }
        self.entries = kept;
        proof {
            let rm = before.filter(|e: WatchEntry| !keep(e));
            assert forall|i: int| 0 <= i < rm.len() implies !keep(#[trigger] rm[i]) && entries_view(before).dom().contains(rm[i].temp_path@)
                && entries_view(before)[rm[i].temp_path@] == rm[i] by {
                lemma_filter_member(before, |e: WatchEntry| !keep(e), i);
                let j = choose|j: int| 0 <= j < before.len() && before[j] == rm[i];
                lemma_view_at(before, j);
            }
            assert forall|k: Seq<char>| entries_view(before).dom().contains(k) && !keep(entries_view(before)[k]) implies exists|i: int| 0 <= i < rm.len() && (#[trigger] rm[i]).temp_path@ == k by {
                let j = entry_pos(before, k);
                lemma_view_at(before, j);
                lemma_filter_keeps(before, |e: WatchEntry| !keep(e), j);
            }
        }
        removed
    }
}


impl WatchRegistry {
    /// Stop watching a path; the entry that was watched there, if any.
    pub fn unregister(&mut self, path: &str) -> (r: Option<WatchEntry>)
        ensures
            final(self).view() == old(self).view().remove(path@),
            match r {
                Some(e) => old(self).view().dom().contains(path@) && e == old(self).view()[path@],
                None => !old(self).view().dom().contains(path@),
            },
    {
        let ghost keep = |e: WatchEntry| e.temp_path@ != path@;
        let ghost m = self.view();
        let mut removed = self.split(Ghost(keep), path, ObjectID(0), true);
        proof {
            assert(kept_view(m, keep) =~= m.remove(path@));
            if removed@.len() >= 2 {
                assert(!keep(removed@[0]) && !keep(removed@[1]));
                assert(entry_paths(removed@)[0] == entry_paths(removed@)[1]);
            }
        }
        if removed.len() > 0 {
            let e = removed.pop().unwrap();
            proof {
                assert(!keep(e));
            }
            Some(e)
        } else {
            proof {
                if m.dom().contains(path@) {
                    assert(!keep(m[path@]));
                }
            }
            None
        }
    }

    /// Stop watching every file of an object; the entries that were watched.
    pub fn unregister_by_object(&mut self, object_id: &ObjectID) -> (r: Vec<WatchEntry>)
        ensures
            final(self).view() == kept_view(old(self).view(), |e: WatchEntry| e.object_id != *object_id),
            forall|i: int|
                0 <= i < r@.len() ==> (#[trigger] r@[i]).object_id == *object_id && old(self).view().dom().contains(
                    r@[i].temp_path@,
                ) && old(self).view()[r@[i].temp_path@] == r@[i],
            forall|k: Seq<char>|
                old(self).view().dom().contains(k) && (#[trigger] old(self).view()[k]).object_id == *object_id ==> exists|i: int|
                    0 <= i < r@.len() && (#[trigger] r@[i]).temp_path@ == k,
            entry_paths(r@).no_duplicates(),
    {
        let ghost keep = |e: WatchEntry| e.object_id != *object_id;
        let removed = self.split(Ghost(keep), "", *object_id, false);
        proof {
            assert forall|i: int| 0 <= i < removed@.len() implies (#[trigger] removed@[i]).object_id == *object_id by {
                assert(!keep(removed@[i]));
            }
        }
        removed
    }

    /// The entry watched at a path.
    pub fn get(&self, path: &str) -> (r: Option<&WatchEntry>)
        ensures
            match r {
                Some(e) => self.view().dom().contains(path@) && *e == self.view()[path@],
                None => !self.view().dom().contains(path@),
            },
    {
        proof {
            use_type_invariant(self);
        }
        match self.find(path) {
            Some(i) => {
                proof {
                    lemma_view_at(self.entries@, i as int);
                }
                Some(&self.entries[i])
            },
            None => None,
        }
    }

    /// Record a new hash for the file at a path; whether it is watched.
    pub fn update_hash(&mut self, path: &str, new_hash: [u8; 32]) -> (r: bool)
        ensures
            r == old(self).view().dom().contains(path@),
            r ==> final(self).view() == old(self).view().insert(
                path@,
                WatchEntry { last_known_hash: new_hash, ..old(self).view()[path@] },
            ),
            !r ==> final(self).view() == old(self).view(),
    {
        proof {
            use_type_invariant(&*self);
        }
        match self.find(path) {
            Some(i) => {
                let ghost before = self.entries@;
                proof {
                    lemma_view_at(before, i as int);
                }
                let mut es = Vec::new();
                std::mem::swap(&mut es, &mut self.entries);
                let mut e = blank_entry();
                std::mem::swap(&mut e, &mut es[i]);
                assert(e == before[i as int]);
                e.last_known_hash = new_hash;
                let ghost ne = e;
                es.set(i, e);
                proof {
                    assert(entry_paths(es@) =~= entry_paths(before));
                    assert(es@ == before.update(i as int, ne));
                    let m = entries_view(before);
                    assert forall|k: Seq<char>| #[trigger] entries_view(es@).dom().contains(k) == m.insert(path@, ne).dom().contains(k) by {
                        if entries_view(es@).dom().contains(k) {
                            let j = choose|j: int| 0 <= j < es@.len() && es@[j].temp_path@ == k;
                            lemma_view_at(before, j);
                        }
                        if m.dom().contains(k) {
                            let j = entry_pos(before, k);
                            lemma_view_at(es@, j);
                        }
                        if k == path@ {
                            lemma_view_at(es@, i as int);
                        }
                    }
                    assert forall|k: Seq<char>| #[trigger] entries_view(es@).dom().contains(k) implies entries_view(es@)[k] == m.insert(path@, ne)[k] by {
                        let j = entry_pos(es@, k);
                        lemma_view_at(es@, j);
                        lemma_view_at(before, j);
                        if j != i {
                            assert(es@[j] == before[j]);
                        }
                        if k == path@ && j != i {
                            assert(entry_paths(es@)[j] == entry_paths(es@)[i as int]);
                        }
                    }
                    assert(entries_view(es@) =~= m.insert(path@, ne));
                }
                self.entries = es;
                true
            },
            None => false,
        }
    }

    /// Every watched entry, each once, in no particular order.
    pub fn list(&self) -> (r: &[WatchEntry])
        ensures
            forall|i: int|
                0 <= i < r@.len() ==> self.view().dom().contains((#[trigger] r@[i]).temp_path@) && self.view()[r@[i].temp_path@]
                    == r@[i],
            forall|k: Seq<char>| #[trigger] self.view().dom().contains(k) ==> exists|i: int| 0 <= i < r@.len() && r@[i].temp_path@ == k,
            entry_paths(r@).no_duplicates(),
            r@ == self.list_view(),
    {
        proof {
            use_type_invariant(self);
            assert forall|i: int| 0 <= i < self.entries@.len() implies self.view().dom().contains((#[trigger] self.entries@[i]).temp_path@)
                && self.view()[self.entries@[i].temp_path@] == self.entries@[i] by {
                lemma_view_at(self.entries@, i);
            }
        }
        self.entries.as_slice()
    }

    /// How many files are watched.
    pub fn count(&self) -> (r: usize)
        ensures
            r == self.view().dom().len(),
    {
        proof {
            use_type_invariant(self);
            let ps = entry_paths(self.entries@);
            assert(self.view().dom() =~= ps.to_set()) by {
                assert forall|k: Seq<char>| #[trigger] self.view().dom().contains(k) == ps.to_set().contains(k) by {
                    if ps.to_set().contains(k) {
                        let j = choose|j: int| 0 <= j < ps.len() && ps[j] == k;
                        assert(self.entries@[j].temp_path@ == k);
                    }
                    if self.view().dom().contains(k) {
                        let j = choose|j: int| 0 <= j < self.entries@.len() && self.entries@[j].temp_path@ == k;
                        assert(ps[j] == k);
                    }
                }
            }
            ps.unique_seq_to_set();
        }
        self.entries.len()
    }
}


/// The entries by path after registering a list of entries in turn.
pub open spec fn registered_all(es: Seq<WatchEntry>) -> Map<Seq<char>, WatchEntry>
    decreases es.len(),
{
    if es.len() == 0 {
        Map::empty()
    } else {
        registered_all(es.drop_last()).insert(es.last().temp_path@, es.last())
    }
}

impl WatchRegistry {
    /// A registry of entries, registered in turn (a later entry for a path
    /// replaces an earlier one).
    pub fn from_entries(entries: Vec<WatchEntry>) -> (r: WatchRegistry)
        ensures
            r.view() == registered_all(entries@),
    {
        let mut reg = WatchRegistry::new();
        let ghost all = entries@;
        let mut rest = entries;
        let mut rev: Vec<WatchEntry> = Vec::new();
        while rest.len() > 0
            invariant
                rest@.len() + rev@.len() == all.len(),
                forall|j: int| 0 <= j < rest@.len() ==> rest@[j] == all[j],
                forall|j: int| 0 <= j < rev@.len() ==> rev@[j] == all[all.len() - 1 - j],
            decreases rest@.len(),
        {
            let e = rest.pop().unwrap();
            rev.push(e);
        }
        while rev.len() > 0
            invariant
                rev@.len() <= all.len(),
                forall|j: int| 0 <= j < rev@.len() ==> rev@[j] == all[all.len() - 1 - j],
                reg.view() == registered_all(all.take(all.len() - rev@.len())),
            decreases rev@.len(),
        {
            let e = rev.pop().unwrap();
            let ghost m = all.len() - rev@.len();
            proof {
                assert(e == all[m - 1]);
                assert(all.take(m).drop_last() =~= all.take(m - 1));
                assert(all.take(m).last() == e);
            }
            reg.register(e);
        }
        assert(all.take(all.len() as int) =~= all);
        reg
    }

    /// A copy of every entry (see `list`).
    pub fn snapshot(&self) -> (r: Vec<WatchEntry>)
        ensures
            r@ == self.list_view(),
    {
        let l = self.list();
        let mut out: Vec<WatchEntry> = Vec::new();
        let mut i: usize = 0;
        while i < l.len()
            invariant
                i <= l@.len(),
                l@ == self.list_view(),
                out@ == l@.take(i as int),
            decreases l@.len() - i,
        {
            let e = copy_entry(&l[i]);
            out.push(e);
            assert(out@ =~= l@.take(i + 1));
            i = i + 1;
        }
        assert(l@.take(l@.len() as int) =~= l@);
        out
    }

    /// The entries in the order `list` gives them.
    pub closed spec fn list_view(&self) -> Seq<WatchEntry> {
        self.entries@
    }
}

/// A copy of an entry.
fn copy_entry(e: &WatchEntry) -> (r: WatchEntry)
    ensures
        r == *e,
{
    let p = e.temp_path.clone();
    let d = e.display_name.clone();
    assert(p@ == e.temp_path@ && d@ == e.display_name@);
    WatchEntry {
        temp_path: p,
        object_id: e.object_id,
        actor_id: e.actor_id,
        original_hash: e.original_hash,
        last_known_hash: e.last_known_hash,
        display_name: d,
        registered_at: e.registered_at,
    }
}

/// What the watcher does about a change to a file it may follow.
#[derive(Debug, Clone, Copy)]
pub enum ChangeStep {
    /// Nothing: the file is ignored, not followed, or its content is
    /// unchanged.
    Skip,
    /// Stop following the file: it was deleted.
    Unregister,
    /// Commit the content as a new version; its hash is given.
    Commit([u8; 32]),
}

/// What the watcher does once a commit was tried.
#[derive(Debug, Clone, Copy)]
pub enum CommitStep {
    /// Record the committed content's hash as the last known one.
    UpdateHash([u8; 32]),
    /// Stop following the file: its object is sealed.
    Unregister,
    /// Leave the registry as it is: the commit failed otherwise.
    Keep,
}

/// Decide what a change to a watched file calls for: skip an ignored file
/// or one that is not registered (`last_known_hash` is `None`); unregister
/// a deleted one (`content` is `None`); skip content whose BLAKE3 hash is
/// the last known one; otherwise commit it, with that hash.
pub fn plan_file_change(ignored: bool, last_known_hash: Option<&[u8; 32]>, content: Option<&[u8]>) -> (r: ChangeStep)
    ensures
        ignored || last_known_hash is None ==> r is Skip,
        !ignored && last_known_hash is Some && content is None ==> r is Unregister,
        (!ignored && last_known_hash is Some && content is Some) ==> {
            let h = last_known_hash.unwrap()@;
            let d = content.unwrap()@;
            &&& blake3_digest(d) == h ==> r is Skip
            &&& blake3_digest(d) != h ==> (r matches ChangeStep::Commit(n) && n@ == blake3_digest(d))
        },
{
    if ignored {
        return ChangeStep::Skip;
    }
    let last = match last_known_hash {
        None => {
            return ChangeStep::Skip;
        },
        Some(h) => h,
    };
    let data = match content {
        None => {
            return ChangeStep::Unregister;
        },
        Some(d) => d,
    };
    let h = compute_hash(data);
    if bytes_equal(&h, last) {
        ChangeStep::Skip
    } else {
        ChangeStep::Commit(h)
    }
}

/// Decide what a tried commit calls for: record the new hash after a
/// commit, unregister the file when its object is sealed, and keep the
/// registry as it is after any other failure.
pub fn after_commit(result: &Result<Version, LatticeError>, new_hash: [u8; 32]) -> (r: CommitStep)
    ensures
        result is Ok ==> (r matches CommitStep::UpdateHash(h) && h == new_hash),
        result matches Err(LatticeError::ObjectSealed { .. }) ==> r is Unregister,
        result matches Err(e) && !(e is ObjectSealed) ==> r is Keep,
{
    match result {
        Ok(_) => CommitStep::UpdateHash(new_hash),
        Err(LatticeError::ObjectSealed { .. }) => CommitStep::Unregister,
        Err(_) => CommitStep::Keep,
    }
}

} // verus!
