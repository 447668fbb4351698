//! The version history as a graph: each version points to its parent.
//! Ancestry, depth, common ancestors, descendants and a parents-first order.

use vstd::prelude::*;
use crate::error::LatticeError;
use crate::model::object::{ObjectID, Version, VersionID};
use crate::query::catalog::{failure_matches, version_keys, Catalog, LookupFailure};

verus! {

/// Walking up the parent links from `cur`, having passed `seen`: the parents
/// met, from the first to a root. A version met twice is a cycle; a missing
/// version is a failure.
pub open spec fn parents_from(cat: Catalog, cur: VersionID, seen: Seq<VersionID>) -> Result<Seq<VersionID>, LookupFailure>
    decreases cat.versions@.len() + 1 - seen.len(),
{
    if seen.len() > cat.versions@.len() || seen.contains(cur) {
        Err(LookupFailure::CyclicVersion)
    } else {
        match cat.version(cur) {
            None => Err(LookupFailure::VersionMissing(cur)),
            Some(v) => match v.parent_version {
                None => Ok(seq![]),
                Some(p) => match parents_from(cat, p, seen.push(cur)) {
                    Ok(rest) => Ok(seq![p] + rest),
                    Err(f) => Err(f),
                },
            },
        }
    }
}

/// Walking up the parent links from `cur`, having passed `seen`: whether
/// `target` is met, stopping as soon as it is.
pub open spec fn reaches_from(cat: Catalog, target: VersionID, cur: VersionID, seen: Seq<VersionID>) -> Result<bool, LookupFailure>
    decreases cat.versions@.len() + 1 - seen.len(),
{
    if seen.len() > cat.versions@.len() || seen.contains(cur) {
        Err(LookupFailure::CyclicVersion)
    } else {
        match cat.version(cur) {
            None => Err(LookupFailure::VersionMissing(cur)),
            Some(v) => match v.parent_version {
                None => Ok(false),
                Some(p) => if p == target {
                    Ok(true)
                } else {
                    reaches_from(cat, target, p, seen.push(cur))
                },
            },
        }
    }
}

/// The ancestors of a version, from its parent to the root.
pub open spec fn ancestors_of(cat: Catalog, v: VersionID) -> Result<Seq<VersionID>, LookupFailure> {
    parents_from(cat, v, seq![])
}

/// Whether `a` is an ancestor of `d` (a version is not its own).
pub open spec fn is_ancestor_of(cat: Catalog, a: VersionID, d: VersionID) -> Result<bool, LookupFailure> {
    if a == d {
        Ok(false)
    } else {
        reaches_from(cat, a, d, seq![])
    }
}

/// `x` is `a` or one of the listed ancestors of `a`.
pub open spec fn in_line(a: VersionID, la: Seq<VersionID>, x: VersionID) -> bool {
    x == a || la.contains(x)
}

/// `i` is the first position in `lb` that is in `a`'s line.
pub open spec fn is_first_shared(lb: Seq<VersionID>, a: VersionID, la: Seq<VersionID>, i: int) -> bool {
    0 <= i < lb.len() && in_line(a, la, lb[i]) && forall|j: int| 0 <= j < i ==> !in_line(a, la, #[trigger] lb[j])
}

/// The most recent common ancestor of two versions (a version counts as
/// its own): `a` itself when they are equal; `b` when it is in `a`'s line;
/// else the first of `b`'s ancestors in `a`'s line; none when the lines do
/// not meet.
pub open spec fn common_ancestor_of(cat: Catalog, a: VersionID, b: VersionID) -> Result<Option<VersionID>, LookupFailure> {
    if a == b {
        Ok(Some(a))
    } else {
        match ancestors_of(cat, a) {
            Err(f) => Err(f),
            Ok(la) => if in_line(a, la, b) {
                Ok(Some(b))
            } else {
                match ancestors_of(cat, b) {
                    Err(f) => Err(f),
                    Ok(lb) => if exists|i: int| is_first_shared(lb, a, la, i) {
                        Ok(Some(lb[choose|i: int| is_first_shared(lb, a, la, i)]))
                    } else {
                        Ok(None)
                    },
                }
            },
        }
    }
}

/// The identifiers of an object's stored versions, in store order.
pub open spec fn versions_of_object(vs: Seq<Version>, o: ObjectID) -> Seq<VersionID>
    decreases vs.len(),
{
    if vs.len() == 0 {
        seq![]
    } else {
        versions_of_object(vs.drop_last(), o) + if vs.last().object_id == o {
            seq![vs.last().id]
        } else {
            seq![]
        }
    }
}

/// The versions among `vids` (other than `anc` itself) that descend from
/// `anc`, in order; the first failure of an ancestry check, in order.
pub open spec fn descendants_among(cat: Catalog, anc: VersionID, vids: Seq<VersionID>) -> Result<Seq<VersionID>, LookupFailure>
    decreases vids.len(),
{
    if vids.len() == 0 {
        Ok(seq![])
    } else {
        match descendants_among(cat, anc, vids.drop_last()) {
            Err(f) => Err(f),
            Ok(d) => {
                let x = vids.last();
                if x == anc {
                    Ok(d)
                } else {
                    match is_ancestor_of(cat, anc, x) {
                        Err(f) => Err(f),
                        Ok(true) => Ok(d.push(x)),
                        Ok(false) => Ok(d),
                    }
                }
            },
        }
    }
}

/// The parent of a stored version (none for a root or a missing version).
pub open spec fn parent_in(cat: Catalog, v: VersionID) -> Option<VersionID> {
    match cat.version(v) {
        Some(x) => x.parent_version,
        None => None,
    }
}

/// `i` is the first of the versions that is not stored.
pub open spec fn is_first_missing(cat: Catalog, vs: Seq<VersionID>, i: int) -> bool {
    0 <= i < vs.len() && cat.version(vs[i]) is None && forall|j: int| 0 <= j < i ==> (#[trigger] cat.version(vs[j])) is Some
}

/// `u` is listed among the ancestors of `v`.
pub open spec fn listed_ancestor(cat: Catalog, u: VersionID, v: VersionID) -> bool {
    ancestors_of(cat, v) matches Ok(l) && l.contains(u)
}

/// `i` is the first of the versions whose ancestors cannot be listed.
pub open spec fn is_first_broken_line(cat: Catalog, vs: Seq<VersionID>, i: int) -> bool {
    0 <= i < vs.len() && ancestors_of(cat, vs[i]) is Err && forall|j: int|
        0 <= j < i ==> (#[trigger] ancestors_of(cat, vs[j])) is Ok
}

/// An ancestors-first order of the versions: each once, and each after
/// every one of them that is among its ancestors.
pub open spec fn ancestors_first(cat: Catalog, vs: Seq<VersionID>, out: Seq<VersionID>) -> bool {
    &&& out.no_duplicates()
    &&& out.len() == vs.len()
    &&& forall|x: VersionID| #[trigger] out.contains(x) == vs.contains(x)
    &&& forall|i: int, j: int|
        0 <= i < out.len() && 0 <= j < out.len() && #[trigger] listed_ancestor(cat, out[j], out[i]) ==> j < i
}

/// Some of the versions form a nonempty group in which each has an
/// ancestor in the group: their ancestry runs in a circle.
pub open spec fn has_ancestor_cycle(cat: Catalog, vs: Seq<VersionID>) -> bool {
    exists|g: Seq<VersionID>|
        g.len() > 0 && forall|i: int|
            0 <= i < g.len() ==> vs.contains(#[trigger] g[i]) && has_ancestor_in(cat, g, g[i])
}

/// One of `g` is listed among the ancestors of `v`.
pub open spec fn has_ancestor_in(cat: Catalog, g: Seq<VersionID>, v: VersionID) -> bool {
    exists|j: int| 0 <= j < g.len() && listed_ancestor(cat, g[j], v)
}

/// Distinct stored versions are no more than the stored entries.
proof fn lemma_seen_bound(cat: Catalog, seen: Seq<VersionID>)
    requires
        seen.no_duplicates(),
        forall|i: int| 0 <= i < seen.len() ==> (#[trigger] cat.version(seen[i])) is Some,
    ensures
        seen.len() <= cat.versions@.len(),
{
    let keys = version_keys(cat.versions@);
    assert forall|x: VersionID| seen.to_set().contains(x) implies keys.to_set().contains(x) by {
        let i = choose|i: int| 0 <= i < seen.len() && seen[i] == x;
        assert(cat.version(seen[i]) is Some);
        let k = choose|k: int| crate::query::catalog::is_first_key(keys, x, k);
        assert(keys[k] == x);
    }
    seen.unique_seq_to_set();
    vstd::seq_lib::seq_to_set_is_finite(keys);
    keys.lemma_cardinality_of_set();
    vstd::set_lib::lemma_len_subset(seen.to_set(), keys.to_set());
}

/// Whether a version is in a list.
fn contains_version(v: &Vec<VersionID>, x: VersionID) -> (r: bool)
    ensures
        r == v@.contains(x),
{
    let mut i: usize = 0;
    while i < v.len()
        invariant
            i <= v@.len(),
            forall|j: int| 0 <= j < i ==> v@[j] != x,
        decreases v@.len() - i,
    {
        if v[i].0 == x.0 {
            assert(v@[i as int] == x);
            return true;
        }
        i = i + 1;
    }
    false
}

/// Ancestry queries over the versions of a catalog.
pub struct VersionDAG<'a> {
    store: &'a Catalog,
}

impl<'a> VersionDAG<'a> {
    /// The catalog this graph reads.
    pub closed spec fn catalog(&self) -> Catalog {
        *self.store
    }

    /// The graph of a catalog's versions.
    pub fn new(store: &'a Catalog) -> (r: VersionDAG<'a>)
        ensures
            r.catalog() == *store,
    {
        VersionDAG { store }
    }

    /// The ancestors of a version, from its immediate parent to the root;
    /// `CyclicVersion` when the parent links run in a circle, `VersionNotFound`
    /// for a missing version on the way.
    pub fn ancestors(&self, version_id: VersionID) -> (r: Result<Vec<VersionID>, LatticeError>)
        ensures
            match ancestors_of(self.catalog(), version_id) {
                Ok(s) => r matches Ok(v) && v@ == s,
                Err(f) => r matches Err(e) && failure_matches(e, f),
            },
    {
        let ghost cat = self.catalog();
        let mut out: Vec<VersionID> = Vec::new();
        let mut visited: Vec<VersionID> = Vec::new();
        let mut current = version_id;
        loop
            invariant
                cat == self.catalog(),
                visited@.no_duplicates(),
                forall|i: int| 0 <= i < visited@.len() ==> (#[trigger] cat.version(visited@[i])) is Some,
                match parents_from(cat, current, visited@) {
                    Ok(rest) => ancestors_of(cat, version_id) == Ok::<Seq<VersionID>, LookupFailure>(out@ + rest),
                    Err(f) => ancestors_of(cat, version_id) == Err::<Seq<VersionID>, LookupFailure>(f),
                },
            decreases cat.versions@.len() + 1 - visited@.len(),
        {
            proof {
                lemma_seen_bound(cat, visited@);
            }
            if contains_version(&visited, current) {
                return Err(LatticeError::CyclicVersion);
            }
            let version = match self.store.load_version(&current) {
                Ok(v) => v,
                Err(e) => return Err(e),
            };
            match version.parent_version {
                Some(p) => {
                    proof {
                        assert forall|k: int| 0 <= k < visited@.push(current).len() implies (#[trigger] cat.version(
                            visited@.push(current)[k],
                        )) is Some by {
                            if k < visited@.len() {
                                assert(visited@.push(current)[k] == visited@[k]);
                            }
                        }
                        match parents_from(cat, p, visited@.push(current)) {
                            Ok(rest) => assert((out@.push(p) + rest) =~= out@ + (seq![p] + rest)),
                            Err(_) => {},
                        }
                    }
                    visited.push(current);
                    out.push(p);
                    current = p;
                },
                None => {
                    assert(out@ + Seq::<VersionID>::empty() =~= out@);
                    return Ok(out);
                },
            }
        }
    }

    /// Whether `ancestor` is an ancestor of `descendant`, walking up from the
    /// descendant until it is met or a root is; a version is not its own
    /// ancestor.
    pub fn is_ancestor(&self, ancestor: VersionID, descendant: VersionID) -> (r: Result<bool, LatticeError>)
        ensures
            match is_ancestor_of(self.catalog(), ancestor, descendant) {
                Ok(b) => r == Ok::<bool, LatticeError>(b),
                Err(f) => r matches Err(e) && failure_matches(e, f),
            },
    {
        if ancestor.0 == descendant.0 {
            return Ok(false);
        }
        let ghost cat = self.catalog();
        let mut visited: Vec<VersionID> = Vec::new();
        let mut current = descendant;
        loop
            invariant
                cat == self.catalog(),
                ancestor != descendant,
                visited@.no_duplicates(),
                forall|i: int| 0 <= i < visited@.len() ==> (#[trigger] cat.version(visited@[i])) is Some,
                reaches_from(cat, ancestor, current, visited@) == is_ancestor_of(cat, ancestor, descendant),
            decreases cat.versions@.len() + 1 - visited@.len(),
        {
            proof {
                lemma_seen_bound(cat, visited@);
            }
            if contains_version(&visited, current) {
                return Err(LatticeError::CyclicVersion);
            }
            let version = match self.store.load_version(&current) {
                Ok(v) => v,
                Err(e) => return Err(e),
            };
            match version.parent_version {
                Some(p) => {
                    if p.0 == ancestor.0 {
                        return Ok(true);
                    }
                    proof {
                        assert forall|k: int| 0 <= k < visited@.push(current).len() implies (#[trigger] cat.version(
                            visited@.push(current)[k],
                        )) is Some by {
                            if k < visited@.len() {
                                assert(visited@.push(current)[k] == visited@[k]);
                            }
                        }
                    }
                    visited.push(current);
                    current = p;
                },
                None => return Ok(false),
            }
        }
    }

    /// How far a version is from its root: the number of its ancestors.
    pub fn depth(&self, version_id: VersionID) -> (r: Result<usize, LatticeError>)
        ensures
            match ancestors_of(self.catalog(), version_id) {
                Ok(s) => r == Ok::<usize, LatticeError>(s.len() as usize),
                Err(f) => r matches Err(e) && failure_matches(e, f),
            },
    {
        match self.ancestors(version_id) {
            Ok(v) => Ok(v.len()),
            Err(e) => Err(e),
        }
    }

    /// Check that a new version with this parent keeps the history acyclic:
    /// a version cannot be its own parent, and the parent's ancestry must be
    /// intact.
    pub fn verify_acyclic(&self, new_version_id: VersionID, parent_id: Option<VersionID>) -> (r: Result<(), LatticeError>)
        ensures
            match parent_id {
                None => r is Ok,
                Some(p) => if p == new_version_id {
                    r == Err::<(), LatticeError>(LatticeError::CyclicVersion)
                } else {
                    match ancestors_of(self.catalog(), p) {
                        Ok(_) => r is Ok,
                        Err(f) => r matches Err(e) && failure_matches(e, f),
                    }
                },
            },
    {
        let parent = match parent_id {
            None => return Ok(()),
            Some(p) => p,
        };
        if new_version_id.0 == parent.0 {
            return Err(LatticeError::CyclicVersion);
        }
        match self.ancestors(parent) {
            Ok(_) => Ok(()),
            Err(e) => Err(e),
        }
    }
}

impl<'a> VersionDAG<'a> {
    /// The most recent common ancestor of two versions (see
    /// `common_ancestor_of`).
    pub fn common_ancestor(&self, version_a: VersionID, version_b: VersionID) -> (r: Result<Option<VersionID>, LatticeError>)
        ensures
            match common_ancestor_of(self.catalog(), version_a, version_b) {
                Ok(o) => r == Ok::<Option<VersionID>, LatticeError>(o),
                Err(f) => r matches Err(e) && failure_matches(e, f),
            },
    {
        if version_a.0 == version_b.0 {
            return Ok(Some(version_a));
        }
        let la = match self.ancestors(version_a) {
            Ok(v) => v,
            Err(e) => return Err(e),
        };
        if contains_version(&la, version_b) {
            return Ok(Some(version_b));
        }
        let lb = match self.ancestors(version_b) {
            Ok(v) => v,
            Err(e) => return Err(e),
        };
        let mut i: usize = 0;
        while i < lb.len()
            invariant
                i <= lb@.len(),
                version_a != version_b,
                ancestors_of(self.catalog(), version_a) == Ok::<Seq<VersionID>, LookupFailure>(la@),
                ancestors_of(self.catalog(), version_b) == Ok::<Seq<VersionID>, LookupFailure>(lb@),
                !in_line(version_a, la@, version_b),
                forall|j: int| 0 <= j < i ==> !in_line(version_a, la@, #[trigger] lb@[j]),
            decreases lb@.len() - i,
        {
            let x = lb[i];
            if x.0 == version_a.0 || contains_version(&la, x) {
                proof {
                    assert(is_first_shared(lb@, version_a, la@, i as int));
                    let k = choose|k: int| is_first_shared(lb@, version_a, la@, k);
                    if k < i {
                        assert(!in_line(version_a, la@, lb@[k]));
                    } else if i < k {
                        assert(!in_line(version_a, la@, lb@[i as int]));
                    }
                    assert(k == i);
                    assert(lb@[k] == x);
                    assert(exists|j: int| is_first_shared(lb@, version_a, la@, j));
                    let c = self.catalog();
                    assert(version_a != version_b);
                    assert(ancestors_of(c, version_a) is Ok);
                    assert(ancestors_of(c, version_a)->Ok_0 == la@);
                    assert(!in_line(version_a, ancestors_of(c, version_a)->Ok_0, version_b));
                    assert(ancestors_of(c, version_b)->Ok_0 == lb@);
                    assert(common_ancestor_of(c, version_a, version_b) == Ok::<Option<VersionID>, LookupFailure>(Some(lb@[choose|j: int| is_first_shared(lb@, version_a, la@, j)])));
                }
                return Ok(Some(x));
            }
            i = i + 1;
        }
        proof {
            if exists|k: int| is_first_shared(lb@, version_a, la@, k) {
                let k = choose|k: int| is_first_shared(lb@, version_a, la@, k);
                assert(!in_line(version_a, la@, lb@[k]));
            }
        }
        Ok(None)
    }

    /// The versions of an object that descend from a version, in store
    /// order.
    pub fn descendants(&self, version_id: VersionID, object_id: ObjectID) -> (r: Result<Vec<VersionID>, LatticeError>)
        ensures
            match descendants_among(self.catalog(), version_id, versions_of_object(self.catalog().versions@, object_id)) {
                Ok(s) => r matches Ok(v) && v@ == s,
                Err(f) => r matches Err(e) && failure_matches(e, f),
            },
    {
        let ghost cat = self.catalog();
        let vs = &self.store.versions;
        let mut out: Vec<VersionID> = Vec::new();
        let mut i: usize = 0;
        while i < vs.len()
            invariant
                i <= vs@.len(),
                cat == self.catalog(),
                *vs == cat.versions,
                descendants_among(cat, version_id, versions_of_object(vs@.take(i as int), object_id))
                    == Ok::<Seq<VersionID>, LookupFailure>(out@),
            decreases vs@.len() - i,
        {
            assert(vs@.take(i + 1).drop_last() =~= vs@.take(i as int));
            let v = &vs[i];
            if v.object_id.0 == object_id.0 {
                let ghost prev = versions_of_object(vs@.take(i as int), object_id);
                assert(versions_of_object(vs@.take(i + 1), object_id) =~= prev.push(v.id));
                assert(prev.push(v.id).drop_last() =~= prev);
                let vid = v.id;
                if vid.0 != version_id.0 {
                    match self.is_ancestor(version_id, vid) {
                        Ok(true) => out.push(vid),
                        Ok(false) => {},
                        Err(e) => {
                            proof {
                                let mut k: int = i + 1;
                                lemma_descendants_err_sticks(cat, version_id, object_id, vs@, k);
                            }
                            return Err(e);
                        },
                    }
                }
            } else {
                assert(versions_of_object(vs@.take(i + 1), object_id) =~= versions_of_object(
                    vs@.take(i as int),
                    object_id,
                ));
            }
            i = i + 1;
        }
        assert(vs@.take(i as int) =~= vs@);
        Ok(out)
    }
}

/// Once the ancestry checks fail over a prefix of the versions, they fail the
/// same way over all of them.
proof fn lemma_descendants_err_sticks(cat: Catalog, anc: VersionID, o: ObjectID, vs: Seq<Version>, k: int)
    requires
        0 <= k <= vs.len(),
        descendants_among(cat, anc, versions_of_object(vs.take(k), o)) is Err,
    ensures
        descendants_among(cat, anc, versions_of_object(vs, o)) == descendants_among(
            cat,
            anc,
            versions_of_object(vs.take(k), o),
        ),
    decreases vs.len() - k,
{
    if k < vs.len() {
        assert(vs.take(k + 1).drop_last() =~= vs.take(k));
        let prev = versions_of_object(vs.take(k), o);
        if vs[k].object_id == o {
            assert(versions_of_object(vs.take(k + 1), o) =~= prev.push(vs[k].id));
            assert(prev.push(vs[k].id).drop_last() =~= prev);
        } else {
            assert(versions_of_object(vs.take(k + 1), o) =~= prev);
        }
        lemma_descendants_err_sticks(cat, anc, o, vs, k + 1);
    } else {
        assert(vs.take(k) =~= vs);
    }
}

/// An ancestors-first order leaves no room for a circle of ancestry.
pub proof fn lemma_ancestors_first_acyclic(cat: Catalog, vs: Seq<VersionID>, out: Seq<VersionID>)
    requires
        ancestors_first(cat, vs, out),
    ensures
        !has_ancestor_cycle(cat, vs),
{
    if has_ancestor_cycle(cat, vs) {
        let g = choose|g: Seq<VersionID>|
            g.len() > 0 && forall|i: int|
                0 <= i < g.len() ==> vs.contains(#[trigger] g[i]) && has_ancestor_in(cat, g, g[i]);
        lemma_group_outside_prefix(cat, vs, out, g, out.len() as int);
        assert(vs.contains(g[0]));
        assert(out.contains(g[0]));
        let k = choose|k: int| 0 <= k < out.len() && out[k] == g[0];
        assert(g.contains(out[k])) by {
            assert(g[0] == out[k]);
        }
    }
}

/// No member of a group in which each has an ancestor in the group can be
/// placed in an ancestors-first order.
proof fn lemma_group_outside_prefix(cat: Catalog, vs: Seq<VersionID>, out: Seq<VersionID>, g: Seq<VersionID>, k: int)
    requires
        ancestors_first(cat, vs, out),
        0 <= k <= out.len(),
        forall|i: int| 0 <= i < g.len() ==> vs.contains(#[trigger] g[i]) && has_ancestor_in(cat, g, g[i]),
    ensures
        forall|i: int| 0 <= i < k ==> !g.contains(#[trigger] out[i]),
    decreases k,
{
    if k > 0 {
        lemma_group_outside_prefix(cat, vs, out, g, k - 1);
        let y = out[k - 1];
        if g.contains(y) {
            let m = choose|m: int| 0 <= m < g.len() && g[m] == y;
            assert(vs.contains(g[m]));
            let j = choose|j: int| 0 <= j < g.len() && listed_ancestor(cat, g[j], g[m]);
            let u = g[j];
            assert(vs.contains(u));
            assert(out.contains(u));
            let q = choose|q: int| 0 <= q < out.len() && out[q] == u;
            assert(listed_ancestor(cat, out[q], out[k - 1]));
            assert(q < k - 1);
            assert(g.contains(out[q])) by {
                assert(g[j] == out[q]);
            }
        }
    }
}

/// In an ancestors-first order of versions whose ancestors can all be
/// listed, a version that is an ancestor of another comes before it.
pub proof fn lemma_ancestors_first_order(cat: Catalog, vs: Seq<VersionID>, out: Seq<VersionID>, i: int, j: int)
    requires
        ancestors_first(cat, vs, out),
        0 <= i < out.len(),
        0 <= j < out.len(),
        ancestors_of(cat, out[i]) is Ok,
        is_ancestor_of(cat, out[j], out[i]) == Ok::<bool, LookupFailure>(true),
    ensures
        j < i,
{
    lemma_is_ancestor_listed(cat, out[j], out[i]);
    assert(listed_ancestor(cat, out[j], out[i]));
}

/// Some pending entry is for this version.
pub open spec fn pending_has(v: Seq<(VersionID, Vec<VersionID>)>, x: VersionID) -> bool {
    exists|j: int| 0 <= j < v.len() && (#[trigger] v[j]).0 == x
}

/// Some version of a line is pending.
pub open spec fn line_pending(v: Seq<(VersionID, Vec<VersionID>)>, line: Seq<VersionID>) -> bool {
    exists|m: int| 0 <= m < line.len() && pending_has(v, #[trigger] line[m])
}

/// Whether a version is among the pending ones.
fn pending_contains(v: &Vec<(VersionID, Vec<VersionID>)>, x: VersionID) -> (r: bool)
    ensures
        r == pending_has(v@, x),
{
    let mut i: usize = 0;
    while i < v.len()
        invariant
            i <= v@.len(),
            forall|j: int| 0 <= j < i ==> (#[trigger] v@[j]).0 != x,
        decreases v@.len() - i,
    {
        if v[i].0.0 == x.0 {
            return true;
        }
        i = i + 1;
    }
    false
}

/// Whether some version of a line is pending.
fn line_is_pending(v: &Vec<(VersionID, Vec<VersionID>)>, line: &Vec<VersionID>) -> (r: bool)
    ensures
        r == line_pending(v@, line@),
{
    let mut m: usize = 0;
    while m < line.len()
        invariant
            m <= line@.len(),
            forall|q: int| 0 <= q < m ==> !pending_has(v@, #[trigger] line@[q]),
        decreases line@.len() - m,
    {
        if pending_contains(v, line[m]) {
            return true;
        }
        m = m + 1;
    }
    false
}

/// The first pending entry none of whose ancestors is pending, if any.
fn find_ready(pending: &Vec<(VersionID, Vec<VersionID>)>) -> (r: Option<usize>)
    ensures
        match r {
            Some(k) => k < pending@.len() && !line_pending(pending@, pending@[k as int].1@),
            None => forall|m: int| 0 <= m < pending@.len() ==> line_pending(pending@, (#[trigger] pending@[m]).1@),
        },
{
    let mut k: usize = 0;
    while k < pending.len()
        invariant
            k <= pending@.len(),
            forall|m: int| 0 <= m < k ==> line_pending(pending@, (#[trigger] pending@[m]).1@),
        decreases pending@.len() - k,
    {
        if !line_is_pending(pending, &pending[k].1) {
            return Some(k);
        }
        k = k + 1;
    }
    None
}

impl<'a> VersionDAG<'a> {
    /// Order versions so that each comes after every one of them that is
    /// among its ancestors. `VersionNotFound` for the first missing version;
    /// `CyclicVersion` when a version is listed twice; the failure of the
    /// first version whose ancestors cannot be listed (a missing version or
    /// a circle on the way up); `CyclicVersion` when their ancestry runs in
    /// a circle.
    pub fn topological_sort(&self, versions: &[VersionID]) -> (r: Result<Vec<VersionID>, LatticeError>)
        ensures
            if exists|i: int| is_first_missing(self.catalog(), versions@, i) {
                r matches Err(e) && failure_matches(
                    e,
                    LookupFailure::VersionMissing(versions@[choose|i: int| is_first_missing(self.catalog(), versions@, i)]),
                )
            } else if !versions@.no_duplicates() {
                r == Err::<Vec<VersionID>, LatticeError>(LatticeError::CyclicVersion)
            } else if exists|i: int| is_first_broken_line(self.catalog(), versions@, i) {
                r matches Err(e) && failure_matches(
                    e,
                    ancestors_of(
                        self.catalog(),
                        versions@[choose|i: int| is_first_broken_line(self.catalog(), versions@, i)],
                    )->Err_0,
                )
            } else if has_ancestor_cycle(self.catalog(), versions@) {
                r == Err::<Vec<VersionID>, LatticeError>(LatticeError::CyclicVersion)
            } else {
                r matches Ok(out) && ancestors_first(self.catalog(), versions@, out@)
            },
    {
        let ghost cat = self.catalog();
        let ghost vs = versions@;
        let n = versions.len();
        let mut i: usize = 0;
        while i < n
            invariant
                n == vs.len(),
                vs == versions@,
                cat == self.catalog(),
                i <= n,
                forall|j: int| 0 <= j < i ==> (#[trigger] cat.version(vs[j])) is Some,
            decreases n - i,
        {
            match self.store.load_version(&versions[i]) {
                Ok(_) => {},
                Err(e) => {
                    proof {
                        assert(is_first_missing(cat, vs, i as int));
                        let k = choose|k: int| is_first_missing(cat, vs, k);
                        if k < i {
                            assert(cat.version(vs[k]) is Some);
                        } else if i < k {
                            assert(cat.version(vs[i as int]) is Some);
                        }
                    }
                    return Err(e);
                },
            }
            i = i + 1;
        }
        proof {
            if exists|k: int| is_first_missing(cat, vs, k) {
                let k = choose|k: int| is_first_missing(cat, vs, k);
                assert(cat.version(vs[k]) is Some);
            }
        }
        let ghost no_missing = !exists|k: int| is_first_missing(cat, vs, k);
        assert(no_missing);
        let mut a: usize = 0;
        while a < n
            invariant
                n == vs.len(),
                vs == versions@,
                a <= n,
                no_missing == !exists|k: int| is_first_missing(cat, vs, k),
                no_missing,
                cat == self.catalog(),
                forall|p: int, q: int| 0 <= p < a && p < q < n ==> vs[p] != vs[q],
            decreases n - a,
        {
            let mut b: usize = a + 1;
            while b < n
                invariant
                    n == vs.len(),
                    vs == versions@,
                    a < n,
                    a < b <= n,
                    no_missing == !exists|k: int| is_first_missing(cat, vs, k),
                    no_missing,
                    cat == self.catalog(),
                    forall|p: int, q: int| 0 <= p < a && p < q < n ==> vs[p] != vs[q],
                    forall|q: int| a < q < b ==> vs[a as int] != vs[q],
                decreases n - b,
            {
                if versions[a].0 == versions[b].0 {
                    proof {
                        assert(!vs.no_duplicates()) by {
                            assert(vs[a as int] == vs[b as int]);
                        }
                    }
                    return Err(LatticeError::CyclicVersion);
                }
                b = b + 1;
            }
            a = a + 1;
        }
        assert(vs.no_duplicates());
        let mut pending: Vec<(VersionID, Vec<VersionID>)> = Vec::new();
        let mut i: usize = 0;
        while i < n
            invariant
                n == vs.len(),
                vs == versions@,
                cat == self.catalog(),
                no_missing,
                no_missing == !exists|k: int| is_first_missing(cat, vs, k),
                vs.no_duplicates(),
                i <= n,
                pending@.len() == i,
                forall|j: int| 0 <= j < i ==> (#[trigger] ancestors_of(cat, vs[j])) is Ok,
                forall|j: int|
                    0 <= j < i ==> (#[trigger] pending@[j]).0 == vs[j] && pending@[j].1@ == ancestors_of(cat, vs[j])->Ok_0,
            decreases n - i,
        {
            match self.ancestors(versions[i]) {
                Ok(line) => pending.push((versions[i], line)),
                Err(e) => {
                    proof {
                        assert(is_first_broken_line(cat, vs, i as int));
                        let k = choose|k: int| is_first_broken_line(cat, vs, k);
                        if k < i {
                            assert(ancestors_of(cat, vs[k]) is Ok);
                        } else if i < k {
                            assert(ancestors_of(cat, vs[i as int]) is Ok);
                        }
                    }
                    return Err(e);
                },
            }
            i = i + 1;
        }
        proof {
            if exists|k: int| is_first_broken_line(cat, vs, k) {
                let k = choose|k: int| is_first_broken_line(cat, vs, k);
                assert(ancestors_of(cat, vs[k]) is Ok);
            }
        }
        let mut out: Vec<VersionID> = Vec::new();
        proof {
            assert forall|x: VersionID| #[trigger] vs.contains(x) == (out@.contains(x) || pending_has(pending@, x)) by {
                if vs.contains(x) {
                    let j = choose|j: int| 0 <= j < vs.len() && vs[j] == x;
                    assert(pending@[j].0 == x);
                }
                if pending_has(pending@, x) {
                    let j = choose|j: int| 0 <= j < pending@.len() && (#[trigger] pending@[j]).0 == x;
                    assert(vs[j] == x);
                }
            }
            assert forall|j: int, k: int| 0 <= j < k < pending@.len() implies (#[trigger] pending@[j]).0 != (#[trigger] pending@[k]).0 by {
                assert(pending@[j].0 == vs[j] && pending@[k].0 == vs[k]);
            }
            assert forall|j: int| 0 <= j < pending@.len() implies ancestors_of(cat, (#[trigger] pending@[j]).0) is Ok
                && pending@[j].1@ == ancestors_of(cat, pending@[j].0)->Ok_0 by {
                assert(pending@[j].0 == vs[j]);
            }
        }
        while pending.len() > 0
            invariant
                vs == versions@,
                cat == self.catalog(),
                no_missing == !exists|k: int| is_first_missing(cat, vs, k),
                no_missing,
                !exists|k: int| is_first_broken_line(cat, vs, k),
                vs.no_duplicates(),
                out@.len() + pending@.len() == vs.len(),
                out@.no_duplicates(),
                forall|j: int, k: int| 0 <= j < k < pending@.len() ==> (#[trigger] pending@[j]).0 != (#[trigger] pending@[k]).0,
                forall|j: int| 0 <= j < pending@.len() ==> ancestors_of(cat, (#[trigger] pending@[j]).0) is Ok
                    && pending@[j].1@ == ancestors_of(cat, pending@[j].0)->Ok_0,
                forall|x: VersionID|
                    #[trigger] vs.contains(x) == (out@.contains(x) || pending_has(pending@, x)),
                forall|x: VersionID|
                    #[trigger] out@.contains(x) ==> !pending_has(pending@, x),
                forall|i: int, x: VersionID|
                    0 <= i < out@.len() && vs.contains(x) && #[trigger] listed_ancestor(cat, x, out@[i]) ==> exists|j: int|
                        0 <= j < i && out@[j] == x,
            decreases pending@.len(),
        {
            let k = match find_ready(&pending) {
                Some(k) => k,
                None => {
                    proof {
                        let g = pending@.map_values(|e: (VersionID, Vec<VersionID>)| e.0);
                        assert forall|i: int| 0 <= i < g.len() implies vs.contains(#[trigger] g[i]) && has_ancestor_in(cat, g, g[i]) by {
                            assert(g[i] == pending@[i].0);
                            assert(pending_has(pending@, g[i]));
                            assert(vs.contains(g[i]));
                            let e = pending@[i];
                            assert(line_pending(pending@, e.1@));
                            let m = choose|m: int| 0 <= m < e.1@.len() && pending_has(pending@, #[trigger] e.1@[m]);
                            let u = e.1@[m];
                            let j = choose|j: int| 0 <= j < pending@.len() && (#[trigger] pending@[j]).0 == u;
                            assert(g[j] == u);
                            assert(ancestors_of(cat, g[i])->Ok_0.contains(u));
                            assert(listed_ancestor(cat, g[j], g[i]));
                        }
                        assert(g.len() > 0);
                        assert(has_ancestor_cycle(cat, vs));
                    }
                    return Err(LatticeError::CyclicVersion);
                },
            };
            let ghost before = pending@;
            let ghost out_before = out@;
            let item = pending.remove(k);
            proof {
                assert(item == before[k as int]);
                assert(pending@ == before.remove(k as int));
                assert forall|j: int| 0 <= j < pending@.len() implies #[trigger] pending@[j] == if j < k {
                    before[j]
                } else {
                    before[j + 1]
                } by {}
                assert forall|x: VersionID| (pending_has(before, x)) == (
                (pending_has(pending@, x)) || x == item.0) by {
                    if pending_has(before, x) {
                        let j = choose|j: int| 0 <= j < before.len() && (#[trigger] before[j]).0 == x;
                        if j < k {
                            assert(pending@[j] == before[j]);
                        } else if j > k {
                            assert(pending@[j - 1] == before[j]);
                        }
                    }
                    if pending_has(pending@, x) {
                        let j = choose|j: int| 0 <= j < pending@.len() && (#[trigger] pending@[j]).0 == x;
                        if j < k {
                            assert(before[j] == pending@[j]);
                        } else {
                            assert(before[j + 1] == pending@[j]);
                        }
                    }
                    if x == item.0 {
                        assert(before[k as int].0 == x);
                    }
                }
                assert(!pending_has(pending@, item.0)) by {
                    if pending_has(pending@, item.0) {
                        let j = choose|j: int| 0 <= j < pending@.len() && (#[trigger] pending@[j]).0 == item.0;
                        if j < k {
                            assert(before[j].0 == before[k as int].0);
                        } else {
                            assert(before[j + 1].0 == before[k as int].0);
                        }
                    }
                }
                assert(!out_before.contains(item.0)) by {
                    assert(before[k as int].0 == item.0);
                }
                assert forall|j: int| 0 <= j < pending@.len() implies ancestors_of(cat, (#[trigger] pending@[j]).0) is Ok
                    && pending@[j].1@ == ancestors_of(cat, pending@[j].0)->Ok_0 by {
                    if j < k {
                        assert(pending@[j] == before[j]);
                    } else {
                        assert(pending@[j] == before[j + 1]);
                    }
                }
                assert forall|j: int, q: int| 0 <= j < q < pending@.len() implies (#[trigger] pending@[j]).0 != (#[trigger] pending@[q]).0 by {
                    let jj = if j < k { j } else { j + 1 };
                    let qq = if q < k { q } else { q + 1 };
                    assert(pending@[j] == before[jj]);
                    assert(pending@[q] == before[qq]);
                }
            }
            out.push(item.0);
            proof {
                assert forall|x: VersionID| #[trigger] out@.contains(x) == (out_before.contains(x) || x == item.0) by {
                    assert(out@ == out_before.push(item.0));
                    if out@.contains(x) {
                        let j = choose|j: int| 0 <= j < out@.len() && out@[j] == x;
                        if j < out_before.len() {
                            assert(out_before[j] == x);
                        }
                    }
                    if out_before.contains(x) {
                        let j = choose|j: int| 0 <= j < out_before.len() && out_before[j] == x;
                        assert(out@[j] == x);
                    }
                    if x == item.0 {
                        assert(out@[out_before.len() as int] == x);
                    }
                }
                assert forall|i: int, x: VersionID|
                    0 <= i < out@.len() && vs.contains(x) && #[trigger] listed_ancestor(cat, x, out@[i]) implies exists|j: int|
                        0 <= j < i && out@[j] == x by {
                    if i < out_before.len() {
                        assert(out@[i] == out_before[i]);
                        assert(listed_ancestor(cat, x, out_before[i]));
                        let j = choose|j: int| 0 <= j < i && out_before[j] == x;
                        assert(out@[j] == x);
                    } else {
                        assert(out@[i] == item.0);
                        let line = item.1@;
                        assert(line == ancestors_of(cat, item.0)->Ok_0);
                        assert(line.contains(x));
                        let m = choose|m: int| 0 <= m < line.len() && line[m] == x;
                        assert(!pending_has(before, line[m]));
                        assert(out_before.contains(x));
                        let j = choose|j: int| 0 <= j < out_before.len() && out_before[j] == x;
                        assert(out@[j] == x);
                    }
                }
                assert forall|a: int, b: int| 0 <= a < b < out@.len() implies out@[a] != out@[b] by {
                    if b == out_before.len() {
                        assert(out_before.contains(out@[a]));
                    } else {
                        assert(out_before[a] != out_before[b]);
                    }
                }
            }
        }
        proof {
            assert forall|i: int, j: int|
                0 <= i < out@.len() && 0 <= j < out@.len() && #[trigger] listed_ancestor(cat, out@[j], out@[i]) implies j < i by {
                assert(out@.contains(out@[j]));
                assert(vs.contains(out@[j]));
                let q = choose|q: int| 0 <= q < i && out@[q] == out@[j];
                assert(out@.no_duplicates());
            }
            assert(ancestors_first(cat, vs, out@));
            lemma_ancestors_first_acyclic(cat, vs, out@);
        }
        Ok(out)
    }
}


/// Walking up from `a` can never stop at a different answer than listing
/// its ancestors: when the ancestors of `cur` are listed, `target` is met
/// exactly when it is among them.
pub proof fn lemma_reaches_iff_listed(cat: Catalog, target: VersionID, cur: VersionID, seen: Seq<VersionID>)
    requires
        parents_from(cat, cur, seen) is Ok,
    ensures
        reaches_from(cat, target, cur, seen) == Ok::<bool, LookupFailure>(
            parents_from(cat, cur, seen)->Ok_0.contains(target),
        ),
    decreases cat.versions@.len() + 1 - seen.len(),
{
    let v = cat.version(cur)->Some_0;
    match v.parent_version {
        None => {},
        Some(p) => {
            let rest = parents_from(cat, p, seen.push(cur))->Ok_0;
            if p != target {
                lemma_reaches_iff_listed(cat, target, p, seen.push(cur));
            }
            assert((seq![p] + rest).contains(target) == (p == target || rest.contains(target))) by {
                if (seq![p] + rest).contains(target) {
                    let k = choose|k: int| 0 <= k < (seq![p] + rest).len() && (seq![p] + rest)[k] == target;
                    if k > 0 {
                        assert(rest[k - 1] == target);
                    }
                }
                if rest.contains(target) {
                    let k = choose|k: int| 0 <= k < rest.len() && rest[k] == target;
                    assert((seq![p] + rest)[k + 1] == target);
                }
                if p == target {
                    assert((seq![p] + rest)[0] == target);
                }
            }
        },
    }
}

/// A version is an ancestor of another exactly when it is listed among
/// that one's ancestors (when they can be listed).
pub proof fn lemma_is_ancestor_listed(cat: Catalog, a: VersionID, d: VersionID)
    requires
        a != d,
        ancestors_of(cat, d) is Ok,
    ensures
        is_ancestor_of(cat, a, d) == Ok::<bool, LookupFailure>(ancestors_of(cat, d)->Ok_0.contains(a)),
{
    lemma_reaches_iff_listed(cat, a, d, seq![]);
}

/// The most recent common ancestor of a version and one of its ancestors
/// is that ancestor itself.
pub proof fn lemma_common_ancestor_of_descendant(cat: Catalog, a: VersionID, b: VersionID)
    requires
        ancestors_of(cat, a) is Ok,
        is_ancestor_of(cat, b, a) == Ok::<bool, LookupFailure>(true),
    ensures
        common_ancestor_of(cat, a, b) == Ok::<Option<VersionID>, LookupFailure>(Some(b)),
{
    lemma_is_ancestor_listed(cat, b, a);
}

/// A version is its own most recent common ancestor with itself.
pub proof fn lemma_common_ancestor_of_self(cat: Catalog, a: VersionID)
    ensures
        common_ancestor_of(cat, a, a) == Ok::<Option<VersionID>, LookupFailure>(Some(a)),
{
}

/// What the common ancestor of two versions is common to: it is each of
/// them or an ancestor of each.
pub proof fn lemma_common_ancestor_is_common(cat: Catalog, a: VersionID, b: VersionID)
    requires
        common_ancestor_of(cat, a, b) matches Ok(Some(_)),
    ensures
        ({
            let c = common_ancestor_of(cat, a, b)->Ok_0->Some_0;
            &&& c == a || is_ancestor_of(cat, c, a) == Ok::<bool, LookupFailure>(true)
            &&& c == b || is_ancestor_of(cat, c, b) == Ok::<bool, LookupFailure>(true)
        }),
{
    if a != b {
        let la = ancestors_of(cat, a)->Ok_0;
        let c = common_ancestor_of(cat, a, b)->Ok_0->Some_0;
        if in_line(a, la, b) {
            assert(c == b);
            if b != a {
                lemma_is_ancestor_listed(cat, b, a);
            }
        } else {
            let lb = ancestors_of(cat, b)->Ok_0;
            let i = choose|i: int| is_first_shared(lb, a, la, i);
            assert(c == lb[i]);
            if c != a {
                lemma_is_ancestor_listed(cat, c, a);
            }
            if c != b {
                lemma_is_ancestor_listed(cat, c, b);
                assert(lb.contains(c)) by {
                    assert(lb[i] == c);
                }
            }
        }
    }
}

/// The listed parents follow the parent links: the first is the
/// version's parent, each next one is the parent of the one before, and
/// the last has no parent.
proof fn lemma_parents_chain(cat: Catalog, cur: VersionID, seen: Seq<VersionID>)
    requires
        parents_from(cat, cur, seen) is Ok,
    ensures
        ({
            let l = parents_from(cat, cur, seen)->Ok_0;
            &&& l.len() == 0 <==> parent_in(cat, cur) is None
            &&& l.len() > 0 ==> parent_in(cat, cur) == Some(l[0]) && parent_in(cat, l.last()) is None
            &&& forall|i: int| 0 <= i < l.len() - 1 ==> parent_in(cat, #[trigger] l[i]) == Some(l[i + 1])
        }),
    decreases cat.versions@.len() + 1 - seen.len(),
{
    let v = cat.version(cur)->Some_0;
    match v.parent_version {
        None => {},
        Some(p) => {
            lemma_parents_chain(cat, p, seen.push(cur));
            let rest = parents_from(cat, p, seen.push(cur))->Ok_0;
            let l = seq![p] + rest;
            assert forall|i: int| 0 <= i < l.len() - 1 implies parent_in(cat, #[trigger] l[i]) == Some(l[i + 1]) by {
                if i == 0 {
                    if rest.len() > 0 {
                        assert(l[1] == rest[0]);
                    }
                } else {
                    assert(l[i] == rest[i - 1]);
                    assert(l[i + 1] == rest[i]);
                }
            }
            if rest.len() > 0 {
                assert(l.last() == rest.last());
            }
        },
    }
}

/// A version's ancestors, when they can be listed, run from its parent up
/// the parent links to a root: the first is its parent, each next one the
/// parent of the one before, and the last has no parent; a version without
/// a parent has none.
pub proof fn lemma_ancestors_follow_parents(cat: Catalog, v: VersionID)
    requires
        ancestors_of(cat, v) is Ok,
    ensures
        ({
            let l = ancestors_of(cat, v)->Ok_0;
            &&& l.len() == 0 <==> parent_in(cat, v) is None
            &&& l.len() > 0 ==> parent_in(cat, v) == Some(l[0]) && parent_in(cat, l.last()) is None
            &&& forall|i: int| 0 <= i < l.len() - 1 ==> parent_in(cat, #[trigger] l[i]) == Some(l[i + 1])
        }),
{
    lemma_parents_chain(cat, v, seq![]);
}

} // verus!
