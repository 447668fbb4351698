//! Running queries over a catalog: the set of objects that match a filter,
//! then ordered and limited.

use vstd::prelude::*;
use crate::error::LatticeError;
use crate::model::link::{Link, LinkType};
use crate::model::object::{Object, ObjectID};
use crate::model::tag::{tag_path, Tag};
use crate::query::ast::{
    mime_matches, trust_value, Expr, ExprV, MimeV, ObjectRef, ObjectRefV, OrderBy, Predicate, PredicateV, Query,
    QueryV, SortDirection, SortField, TimeField, TimeOp, TimeValue, CompareOp, TrustLevel,
};
use crate::query::catalog::{contains_id, failure_matches, id_of_bytes, ids_of, object_id_from_bytes, Catalog, LookupFailure};
use crate::query::explain::{
    compare, compare_holds, explain_tag_match, explain_tag_matches, first_tag_value, first_tag_value_of, time_holds,
    time_matches,
};
use crate::security::{trust_level, trust_level_of};
use crate::text::{i64_text_value, join_strings, joined, parse_i64, str_eq, string_views};

verus! {

/// A list holds exactly the members of a set, each once.
pub open spec fn lists(v: Seq<ObjectID>, s: Set<ObjectID>) -> bool {
    v.no_duplicates() && forall|x: ObjectID| #[trigger] v.contains(x) == s.contains(x)
}

/// The members of a list, as a set.
pub open spec fn set_of(v: Seq<ObjectID>) -> Set<ObjectID> {
    Set::new(|x: ObjectID| v.contains(x))
}

/// The objects the store knows of: those some version belongs to.
pub open spec fn universe(cat: Catalog) -> Set<ObjectID> {
    Set::new(|x: ObjectID| exists|i: int| 0 <= i < cat.versions@.len() && #[trigger] cat.versions@[i].object_id == x)
}

/// Some tag falls under a key (see `explain_tag_match`).
pub open spec fn has_tag_under(tags: Seq<Tag>, key: Seq<char>) -> bool {
    exists|i: int| 0 <= i < tags.len() && explain_tag_match(tag_path(#[trigger] tags[i].key@, tags[i].value@), key)
}

/// The objects a tag path selects: those the tag index holds for it, and the
/// known objects with a tag that falls under it.
pub open spec fn tag_set(cat: Catalog, key: Seq<char>) -> Set<ObjectID> {
    Set::new(
        |x: ObjectID|
            ids_of(cat.tagged(key)).contains(x) || (universe(cat).contains(x) && match cat.object(x) {
                Some(o) => has_tag_under(o.tags@, key),
                None => false,
            }),
    )
}

/// Some `auto:mimetype` tag has a value that matches the pattern.
pub open spec fn has_mime(tags: Seq<Tag>, mime: MimeV) -> bool {
    exists|i: int|
        0 <= i < tags.len() && #[trigger] tags[i].key@ == "auto:mimetype"@ && mime_matches(mime, tags[i].value@)
}

/// The timestamp a time predicate reads: creation, or the current
/// version's creation (the object's when that version is missing).
pub open spec fn timestamp_of(cat: Catalog, o: Object, f: TimeField) -> i64 {
    match f {
        TimeField::Created => o.created_at,
        TimeField::Updated => match cat.version(o.current_version) {
            Some(v) => v.created_at,
            None => o.created_at,
        },
    }
}

/// Some `References` link (with a 16-byte target) points into the targets.
pub open spec fn links_into(links: Seq<Link>, targets: Set<ObjectID>) -> bool {
    exists|i: int|
        0 <= i < links.len() && links[i].link_type == LinkType::References && links[i].target@.len() == 16
            && targets.contains(id_of_bytes(#[trigger] links[i].target@))
}

/// Whether a stored object satisfies a predicate that is checked object by
/// object (`targets` are those of a references predicate).
pub open spec fn object_satisfies(cat: Catalog, o: Object, p: PredicateV, targets: Set<ObjectID>, now: i64) -> bool {
    match p {
        PredicateV::Type(m) => has_mime(o.tags@, m),
        PredicateV::State(s) => match cat.version(o.current_version) {
            Some(v) => v.state == s,
            None => false,
        },
        PredicateV::Trust(op, level) => compare_holds(op, trust_level_of(o.tags@), trust_value(level)),
        PredicateV::Time(f, op, v) => time_matches(op, v, timestamp_of(cat, o, f), now),
        PredicateV::References(_) => links_into(o.links@, targets),
        _ => false,
    }
}

/// The known, stored objects that satisfy a predicate checked object by object.
pub open spec fn scan_set(cat: Catalog, p: PredicateV, targets: Set<ObjectID>, now: i64) -> Set<ObjectID> {
    Set::new(
        |x: ObjectID|
            universe(cat).contains(x) && match cat.object(x) {
                Some(o) => object_satisfies(cat, o, p, targets, now),
                None => false,
            },
    )
}

/// The objects a reference resolves to: a tag path selects as a tag
/// predicate does; other references resolve as in the catalog.
pub open spec fn target_set(cat: Catalog, r: ObjectRefV) -> Result<Set<ObjectID>, LookupFailure> {
    match r {
        ObjectRefV::Tag(path) => Ok(tag_set(cat, joined(path, ":"@))),
        _ => match cat.ref_targets(r) {
            Ok(s) => Ok(set_of(s)),
            Err(f) => Err(f),
        },
    }
}

/// The objects a `ref` predicate selects: an identifier selects itself when
/// stored; other references as `target_set`.
pub open spec fn ref_set(cat: Catalog, r: ObjectRefV) -> Result<Set<ObjectID>, LookupFailure> {
    match r {
        ObjectRefV::Id(x) => Ok(
            if cat.object(x) is Some {
                Set::empty().insert(x)
            } else {
                Set::empty()
            },
        ),
        _ => target_set(cat, r),
    }
}

/// The members of a list, each once, in order of first appearance.
pub open spec fn dedup(s: Seq<ObjectID>) -> Seq<ObjectID>
    decreases s.len(),
{
    if s.len() == 0 {
        seq![]
    } else {
        let d = dedup(s.drop_last());
        if d.contains(s.last()) {
            d
        } else {
            d.push(s.last())
        }
    }
}

/// The known objects in the order their first version is stored.
pub open spec fn universe_order(cat: Catalog) -> Seq<ObjectID> {
    dedup(cat.versions@.map_values(|v: crate::model::object::Version| v.object_id))
}

/// Whether a stored object has a tag that falls under a key.
pub open spec fn tagged_under(cat: Catalog, x: ObjectID, key: Seq<char>) -> bool {
    match cat.object(x) {
        Some(o) => has_tag_under(o.tags@, key),
        None => false,
    }
}

/// The members of a list that have a tag under a key, in order.
pub open spec fn tag_hits(cat: Catalog, key: Seq<char>, s: Seq<ObjectID>) -> Seq<ObjectID>
    decreases s.len(),
{
    if s.len() == 0 {
        seq![]
    } else {
        tag_hits(cat, key, s.drop_last()) + if tagged_under(cat, s.last(), key) {
            seq![s.last()]
        } else {
            seq![]
        }
    }
}

/// The objects a tag key selects, in the order the library lists them: the
/// tag index's first, then the known objects with a tag under the key.
pub open spec fn tag_order(cat: Catalog, key: Seq<char>) -> Seq<ObjectID> {
    dedup(ids_of(cat.tagged(key)) + tag_hits(cat, key, universe_order(cat)))
}

/// The objects a reference resolves to, in the order the library lists
/// them (see `target_set` for the set).
pub open spec fn target_order(cat: Catalog, r: ObjectRefV) -> Result<Seq<ObjectID>, LookupFailure> {
    match r {
        ObjectRefV::Tag(path) => Ok(tag_order(cat, joined(path, ":"@))),
        _ => match cat.ref_targets(r) {
            Ok(s) => Ok(dedup(s)),
            Err(f) => Err(f),
        },
    }
}

/// The objects a predicate selects. A closure starts from its targets in
/// the order `target_order` lists them; that order can decide whether the
/// depth limit is reached, not which objects are reached.
pub open spec fn predicate_set(cat: Catalog, p: PredicateV, now: i64) -> Result<Set<ObjectID>, LookupFailure> {
    match p {
        PredicateV::Tag(path) => Ok(tag_set(cat, joined(path, ":"@))),
        PredicateV::Ref(rf) => ref_set(cat, rf),
        PredicateV::References(t) => match target_set(cat, t) {
            Err(f) => Err(f),
            Ok(ts) => Ok(scan_set(cat, p, ts, now)),
        },
        PredicateV::Closure(root) => match target_order(cat, root) {
            Err(f) => Err(f),
            Ok(roots) => match cat.closure_from(roots) {
                Ok(v) => Ok(set_of(v)),
                Err(f) => Err(f),
            },
        },
        _ => Ok(scan_set(cat, p, Set::empty(), now)),
    }
}

/// The objects an expression selects: `AND` intersects, `OR` unites, `NOT`
/// takes the rest of the known objects; the left side fails first.
pub open spec fn expr_set(cat: Catalog, e: ExprV, now: i64) -> Result<Set<ObjectID>, LookupFailure>
    decreases e,
{
    match e {
        ExprV::And(a, b) => match expr_set(cat, *a, now) {
            Err(f) => Err(f),
            Ok(sa) => match expr_set(cat, *b, now) {
                Err(f) => Err(f),
                Ok(sb) => Ok(sa.intersect(sb)),
            },
        },
        ExprV::Or(a, b) => match expr_set(cat, *a, now) {
            Err(f) => Err(f),
            Ok(sa) => match expr_set(cat, *b, now) {
                Err(f) => Err(f),
                Ok(sb) => Ok(sa.union(sb)),
            },
        },
        ExprV::Not(a) => match expr_set(cat, *a, now) {
            Err(f) => Err(f),
            Ok(sa) => Ok(universe(cat).difference(sa)),
        },
        ExprV::Pred(p) => predicate_set(cat, p, now),
    }
}

/// What a time predicate selects, by its operator: a known, stored object
/// is selected by `before t` exactly when its timestamp is earlier than
/// `t`, by `after t` exactly when it is later, by `between` exactly when it
/// lies inside the range (either end first, both included), and by an
/// operator paired with the wrong kind of value never; nothing else is
/// selected. The timestamp is the creation time for `created`.
pub proof fn lemma_time_predicate_selects(
    cat: Catalog,
    f: TimeField,
    op: TimeOp,
    v: TimeValue,
    now: i64,
    x: ObjectID,
)
    ensures
        expr_set(cat, ExprV::Pred(PredicateV::Time(f, op, v)), now) is Ok,
        expr_set(cat, ExprV::Pred(PredicateV::Time(f, op, v)), now)->Ok_0.contains(x) ==> universe(cat).contains(x)
            && cat.object(x) is Some,
        (universe(cat).contains(x) && cat.object(x) is Some) ==> {
            let sel = expr_set(cat, ExprV::Pred(PredicateV::Time(f, op, v)), now)->Ok_0.contains(x);
            let o = cat.object(x)->Some_0;
            let ts = timestamp_of(cat, o, f);
            &&& f == TimeField::Created ==> ts == o.created_at
            &&& match (op, v) {
                (TimeOp::Before, TimeValue::Timestamp(t)) => sel <==> ts < t,
                (TimeOp::After, TimeValue::Timestamp(t)) => sel <==> ts > t,
                (TimeOp::Between, TimeValue::Range { start, end }) => sel <==> ((start <= ts && ts <= end) || (
                end <= ts && ts <= start)),
                (TimeOp::Within, TimeValue::Duration(_)) => true,
                _ => !sel,
            }
        },
{
}

/// What a state or trust predicate selects: a known, stored object is
/// selected by `state:s` exactly when its current version is stored and in
/// state `s`, and by `trust <op> level` exactly when its trust level
/// compares to the level's value as the operator says (`>` greater, `<`
/// less, `=` equal, `!=` different, `>=`, `<=`); nothing else is selected.
pub proof fn lemma_state_trust_predicates_select(
    cat: Catalog,
    st: crate::model::state::State,
    op: CompareOp,
    level: TrustLevel,
    now: i64,
    x: ObjectID,
)
    ensures
        expr_set(cat, ExprV::Pred(PredicateV::State(st)), now) is Ok,
        expr_set(cat, ExprV::Pred(PredicateV::Trust(op, level)), now) is Ok,
        (universe(cat).contains(x) && cat.object(x) is Some) ==> {
            let o = cat.object(x)->Some_0;
            let in_state = expr_set(cat, ExprV::Pred(PredicateV::State(st)), now)->Ok_0.contains(x);
            let trusted = expr_set(cat, ExprV::Pred(PredicateV::Trust(op, level)), now)->Ok_0.contains(x);
            let have = trust_level_of(o.tags@);
            let want = trust_value(level);
            &&& in_state <==> (cat.version(o.current_version) matches Some(v) && v.state == st)
            &&& match op {
                CompareOp::Gt => trusted <==> have > want,
                CompareOp::Lt => trusted <==> have < want,
                CompareOp::Eq => trusted <==> have == want,
                CompareOp::Ne => trusted <==> have != want,
                CompareOp::Ge => trusted <==> have >= want,
                CompareOp::Le => trusted <==> have <= want,
            }
        },
        !(universe(cat).contains(x) && cat.object(x) is Some) ==> !expr_set(
            cat,
            ExprV::Pred(PredicateV::State(st)),
            now,
        )->Ok_0.contains(x) && !expr_set(cat, ExprV::Pred(PredicateV::Trust(op, level)), now)->Ok_0.contains(x),
{
}

/// `AND`, `OR` and `NOT` combine selections as intersection, union and
/// complement within the known objects.
pub proof fn lemma_boolean_combinations(cat: Catalog, a: ExprV, b: ExprV, now: i64, x: ObjectID)
    requires
        expr_set(cat, a, now) is Ok,
        expr_set(cat, b, now) is Ok,
    ensures
        ({
            let sa = expr_set(cat, a, now)->Ok_0;
            let sb = expr_set(cat, b, now)->Ok_0;
            &&& expr_set(cat, ExprV::And(Box::new(a), Box::new(b)), now) matches Ok(s) && (s.contains(x) <==> (
            sa.contains(x) && sb.contains(x)))
            &&& expr_set(cat, ExprV::Or(Box::new(a), Box::new(b)), now) matches Ok(s) && (s.contains(x) <==> (
            sa.contains(x) || sb.contains(x)))
            &&& expr_set(cat, ExprV::Not(Box::new(a)), now) matches Ok(s) && (s.contains(x) <==> (universe(
                cat,
            ).contains(x) && !sa.contains(x)))
        }),
{
}

/// A tag predicate selects every known, stored object by the full
/// `key:value` path of any of its tags.
pub proof fn lemma_tag_predicate_selects_own_path(cat: Catalog, x: ObjectID, i: int)
    requires
        universe(cat).contains(x),
        cat.object(x) is Some,
        0 <= i < cat.object(x)->Some_0.tags@.len(),
    ensures
        tag_set(
            cat,
            tag_path(cat.object(x)->Some_0.tags@[i].key@, cat.object(x)->Some_0.tags@[i].value@),
        ).contains(x),
{
    let o = cat.object(x)->Some_0;
    let path = tag_path(o.tags@[i].key@, o.tags@[i].value@);
    assert(explain_tag_match(path, path));
    assert(has_tag_under(o.tags@, path));
}

/// Outside the tag index, a tag predicate selects only objects with a tag
/// whose `key:value` path starts with the predicate's path.
pub proof fn lemma_tag_predicate_sound(cat: Catalog, key: Seq<char>, x: ObjectID)
    requires
        tag_set(cat, key).contains(x),
        !ids_of(cat.tagged(key)).contains(x),
    ensures
        cat.object(x) is Some,
        exists|i: int|
            0 <= i < cat.object(x)->Some_0.tags@.len() && key.is_prefix_of(
                tag_path(#[trigger] cat.object(x)->Some_0.tags@[i].key@, cat.object(x)->Some_0.tags@[i].value@),
            ),
{
    let o = cat.object(x)->Some_0;
    let i = choose|i: int|
        0 <= i < o.tags@.len() && explain_tag_match(tag_path(#[trigger] o.tags@[i].key@, o.tags@[i].value@), key);
    let path = tag_path(o.tags@[i].key@, o.tags@[i].value@);
    if path == key {
        assert(path.subrange(0, path.len() as int) =~= path);
    }
    assert(key.is_prefix_of(path));
}

/// A result agrees with an outcome.
pub open spec fn set_result(r: Result<Vec<ObjectID>, LatticeError>, o: Result<Set<ObjectID>, LookupFailure>) -> bool {
    match o {
        Ok(s) => r matches Ok(v) && lists(v@, s),
        Err(f) => r matches Err(e) && failure_matches(e, f),
    }
}

// ---- Ordering and limiting ----

/// The key an object sorts by: its creation time; its current version's
/// creation time or size (the size as `i64`, wrapping), none when that
/// version is missing; or the first `sys:trust` tag read as an `i64`, 75
/// when there is none or it does not read. None for a missing object.
pub open spec fn sort_key(cat: Catalog, x: ObjectID, f: SortField) -> Option<i64> {
    match cat.object(x) {
        None => None,
        Some(o) => match f {
            SortField::Created => Some(o.created_at),
            SortField::Updated => match cat.version(o.current_version) {
                Some(v) => Some(v.created_at),
                None => None,
            },
            SortField::Size => match cat.version(o.current_version) {
                Some(v) => Some(v.size_bytes as i64),
                None => None,
            },
            SortField::Trust => Some(
                match first_tag_value(o.tags@, "sys:trust"@) {
                    Some(t) => match i64_text_value(t) {
                        Some(n) => n,
                        None => 75,
                    },
                    None => 75,
                },
            ),
        },
    }
}

/// The objects that have a key, with their keys, in order.
pub open spec fn keyed(cat: Catalog, all: Seq<ObjectID>, f: SortField) -> Seq<(ObjectID, i64)>
    decreases all.len(),
{
    if all.len() == 0 {
        seq![]
    } else {
        keyed(cat, all.drop_last(), f) + match sort_key(cat, all.last(), f) {
            Some(k) => seq![(all.last(), k)],
            None => seq![],
        }
    }
}

/// Whether a key may come before another: not greater when ascending, not
/// smaller when descending.
pub open spec fn key_before(a: i64, b: i64, d: SortDirection) -> bool {
    match d {
        SortDirection::Asc => a <= b,
        SortDirection::Desc => a >= b,
    }
}

/// Keys ascend, or descend.
pub open spec fn sorted_by_key(s: Seq<(ObjectID, i64)>, d: SortDirection) -> bool {
    forall|i: int, j: int| 0 <= i < j < s.len() ==> key_before(#[trigger] s[i].1, #[trigger] s[j].1, d)
}

/// An arrangement of the results: unchanged without an ordering; else the
/// objects that have a key, sorted by it, written over the front of the
/// list, the rest of the list left in place.
pub open spec fn arranged(cat: Catalog, all: Seq<ObjectID>, order: Option<OrderBy>, out: Seq<ObjectID>) -> bool {
    match order {
        None => out == all,
        Some(ob) => exists|sorted: Seq<(ObjectID, i64)>|
            #[trigger] sorted.to_multiset() == keyed(cat, all, ob.field).to_multiset() && sorted_by_key(
                sorted,
                ob.direction,
            ) && out == sorted.map_values(|p: (ObjectID, i64)| p.0) + all.skip(sorted.len() as int),
    }
}

/// At most `limit` of the results, from the front.
pub open spec fn limited(s: Seq<ObjectID>, limit: Option<usize>) -> Seq<ObjectID> {
    match limit {
        Some(n) => if n < s.len() {
            s.take(n as int)
        } else {
            s
        },
        None => s,
    }
}

/// A possible outcome of a query: the matching objects in some order,
/// arranged by the ordering, then limited.
pub open spec fn execute_outcome(cat: Catalog, q: QueryV, now: i64, r: Result<Seq<ObjectID>, LookupFailure>) -> bool {
    match expr_set(cat, q.expr, now) {
        Err(f) => r == Err::<Seq<ObjectID>, LookupFailure>(f),
        Ok(s) => exists|all: Seq<ObjectID>, out: Seq<ObjectID>|
            #[trigger] lists(all, s) && #[trigger] arranged(cat, all, q.order, out) && r == Ok::<
                Seq<ObjectID>,
                LookupFailure,
            >(limited(out, q.limit)),
    }
}

/// Each keyed entry carries its object's sort key, and when every object
/// has a key, every object is keyed.
proof fn lemma_keyed_entries(cat: Catalog, all: Seq<ObjectID>, f: SortField)
    ensures
        forall|k: int| 0 <= k < keyed(cat, all, f).len() ==> sort_key(cat, (#[trigger] keyed(cat, all, f)[k]).0, f)
            == Some(keyed(cat, all, f)[k].1),
        (forall|i: int| 0 <= i < all.len() ==> (#[trigger] sort_key(cat, all[i], f)) is Some) ==> keyed(cat, all, f).len()
            == all.len(),
    decreases all.len(),
{
    if all.len() > 0 {
        lemma_keyed_entries(cat, all.drop_last(), f);
        let prev = keyed(cat, all.drop_last(), f);
        assert forall|k: int| 0 <= k < keyed(cat, all, f).len() implies sort_key(cat, (#[trigger] keyed(cat, all, f)[k]).0, f)
            == Some(keyed(cat, all, f)[k].1) by {
            if k < prev.len() {
                assert(keyed(cat, all, f)[k] == prev[k]);
            }
        }
        if forall|i: int| 0 <= i < all.len() ==> (#[trigger] sort_key(cat, all[i], f)) is Some {
            assert forall|i: int| 0 <= i < all.drop_last().len() implies (#[trigger] sort_key(cat, all.drop_last()[i], f)) is Some by {
                assert(all.drop_last()[i] == all[i]);
            }
            assert(sort_key(cat, all[all.len() - 1], f) is Some);
        }
    }
}

/// What a query returns when every object it selects has a sort key (as
/// every stored object has a creation time): no object twice, only
/// selected objects, at most `limit` of them and every selected one when
/// there is no limit, ordered by the key in the asked direction.
pub proof fn lemma_results_ordered_and_limited(cat: Catalog, q: QueryV, now: i64, r: Seq<ObjectID>, ob: OrderBy)
    requires
        execute_outcome(cat, q, now, Ok(r)),
        q.order == Some(ob),
        expr_set(cat, q.expr, now) is Ok,
        forall|x: ObjectID| #[trigger] expr_set(cat, q.expr, now)->Ok_0.contains(x) ==> sort_key(cat, x, ob.field) is Some,
    ensures
        r.no_duplicates(),
        forall|x: ObjectID| #[trigger] r.contains(x) ==> expr_set(cat, q.expr, now)->Ok_0.contains(x),
        q.limit matches Some(n) ==> r.len() <= n,
        q.limit is None ==> forall|x: ObjectID| #[trigger] expr_set(cat, q.expr, now)->Ok_0.contains(x) ==> r.contains(x),
        forall|i: int, j: int|
            0 <= i < j < r.len() ==> key_before(
                #[trigger] sort_key(cat, r[i], ob.field)->Some_0,
                #[trigger] sort_key(cat, r[j], ob.field)->Some_0,
                ob.direction,
            ),
{
    let sel = expr_set(cat, q.expr, now)->Ok_0;
    let (all, out) = choose|all: Seq<ObjectID>, out: Seq<ObjectID>|
        #[trigger] lists(all, sel) && #[trigger] arranged(cat, all, q.order, out) && Ok::<Seq<ObjectID>, LookupFailure>(r)
            == Ok::<Seq<ObjectID>, LookupFailure>(limited(out, q.limit));
    let sorted = choose|sorted: Seq<(ObjectID, i64)>|
        #[trigger] sorted.to_multiset() == keyed(cat, all, ob.field).to_multiset() && sorted_by_key(sorted, ob.direction)
            && out == sorted.map_values(|p: (ObjectID, i64)| p.0) + all.skip(sorted.len() as int);
    let kd = keyed(cat, all, ob.field);
    lemma_keyed_entries(cat, all, ob.field);
    assert forall|i: int| 0 <= i < all.len() implies (#[trigger] sort_key(cat, all[i], ob.field)) is Some by {
        assert(all.contains(all[i]));
    }
    sorted.to_multiset_ensures();
    kd.to_multiset_ensures();
    assert(sorted.len() == kd.len());
    assert(sorted.len() == all.len());
    assert(all.skip(sorted.len() as int) =~= Seq::<ObjectID>::empty());
    assert forall|k: int| 0 <= k < sorted.len() implies sort_key(cat, (#[trigger] sorted[k]).0, ob.field) == Some(sorted[k].1) by {
        assert(sorted.contains(sorted[k]));
        assert(sorted.to_multiset().count(sorted[k]) > 0);
        assert(kd.contains(sorted[k]));
        let m = choose|m: int| 0 <= m < kd.len() && kd[m] == sorted[k];
    }
    let ids = sorted.map_values(|p: (ObjectID, i64)| p.0);
    assert(out =~= ids);
    // the arranged list holds the same objects as `all`, each once
    assert forall|x: ObjectID| #[trigger] out.contains(x) <==> all.contains(x) by {
        if out.contains(x) {
            let k = choose|k: int| 0 <= k < out.len() && out[k] == x;
            assert(sorted.contains(sorted[k]));
            assert(sorted.to_multiset().count(sorted[k]) > 0);
            assert(kd.to_multiset().count(sorted[k]) > 0);
            assert(kd.contains(sorted[k]));
            let m = choose|m: int| 0 <= m < kd.len() && kd[m] == sorted[k];
            lemma_keyed_members(cat, all, ob.field, m);
        }
        if all.contains(x) {
            let i = choose|i: int| 0 <= i < all.len() && all[i] == x;
            lemma_keyed_has(cat, all, ob.field, i);
            let m = choose|m: int| 0 <= m < kd.len() && kd[m].0 == x;
            assert(kd.to_multiset().count(kd[m]) > 0);
            assert(sorted.contains(kd[m]));
            let k = choose|k: int| 0 <= k < sorted.len() && sorted[k] == kd[m];
            assert(out[k] == x);
        }
    }
    assert(out.len() == all.len());
    lemma_same_members_no_dups(all, out);
    assert(r == limited(out, q.limit));
    assert forall|i: int, j: int| 0 <= i < j < r.len() implies key_before(
        #[trigger] sort_key(cat, r[i], ob.field)->Some_0,
        #[trigger] sort_key(cat, r[j], ob.field)->Some_0,
        ob.direction,
    ) by {
        assert(r[i] == out[i] && r[j] == out[j]);
        assert(out[i] == sorted[i].0 && out[j] == sorted[j].0);
        assert(key_before(sorted[i].1, sorted[j].1, ob.direction));
    }
    assert forall|x: ObjectID| #[trigger] r.contains(x) implies sel.contains(x) by {
        let k = choose|k: int| 0 <= k < r.len() && r[k] == x;
        assert(out[k] == x);
        assert(out.contains(x));
    }
}

/// Keyed entries are members of the list they come from.
proof fn lemma_keyed_members(cat: Catalog, all: Seq<ObjectID>, f: SortField, m: int)
    requires
        0 <= m < keyed(cat, all, f).len(),
    ensures
        all.contains(keyed(cat, all, f)[m].0),
    decreases all.len(),
{
    let prev = keyed(cat, all.drop_last(), f);
    if m < prev.len() {
        lemma_keyed_members(cat, all.drop_last(), f, m);
        let i = choose|i: int| 0 <= i < all.drop_last().len() && all.drop_last()[i] == prev[m].0;
        assert(all[i] == prev[m].0);
    } else {
        assert(all[all.len() - 1] == keyed(cat, all, f)[m].0);
    }
}

/// A member with a key has a keyed entry.
proof fn lemma_keyed_has(cat: Catalog, all: Seq<ObjectID>, f: SortField, i: int)
    requires
        0 <= i < all.len(),
        sort_key(cat, all[i], f) is Some,
    ensures
        exists|m: int| 0 <= m < keyed(cat, all, f).len() && keyed(cat, all, f)[m].0 == all[i],
    decreases all.len(),
{
    let prev = keyed(cat, all.drop_last(), f);
    if i < all.len() - 1 {
        lemma_keyed_has(cat, all.drop_last(), f, i);
        let m = choose|m: int| 0 <= m < prev.len() && prev[m].0 == all.drop_last()[i];
        assert(keyed(cat, all, f)[m] == prev[m]);
    } else {
        assert(keyed(cat, all, f)[prev.len() as int].0 == all[i]);
    }
}

/// Two lists of the same length with the same members, the first without
/// repeats, have no repeats in the second either.
proof fn lemma_same_members_no_dups(a: Seq<ObjectID>, b: Seq<ObjectID>)
    requires
        a.no_duplicates(),
        a.len() == b.len(),
        forall|x: ObjectID| #[trigger] b.contains(x) <==> a.contains(x),
    ensures
        b.no_duplicates(),
{
    a.unique_seq_to_set();
    let sa = a.to_set();
    let sb = b.to_set();
    assert(sa =~= sb) by {
        assert forall|x: ObjectID| sa.contains(x) <==> sb.contains(x) by {}
    }
    b.lemma_no_dup_set_cardinality();
}

/// A result agrees with an outcome.
pub open spec fn list_result(r: Result<Vec<ObjectID>, LatticeError>, o: Result<Seq<ObjectID>, LookupFailure>) -> bool {
    match o {
        Ok(s) => r matches Ok(v) && v@ == s,
        Err(f) => r matches Err(e) && failure_matches(e, f),
    }
}

// ---- Lists as sets ----

/// Membership after a push.
proof fn lemma_push_contains(v: Seq<ObjectID>, x: ObjectID, y: ObjectID)
    ensures
        v.push(x).contains(y) == (v.contains(y) || y == x),
{
    if v.push(x).contains(y) {
        let k = choose|k: int| 0 <= k < v.push(x).len() && v.push(x)[k] == y;
        if k < v.len() {
            assert(v[k] == y);
        }
    }
    if v.contains(y) {
        let k = choose|k: int| 0 <= k < v.len() && v[k] == y;
        assert(v.push(x)[k] == y);
    }
    if y == x {
        assert(v.push(x)[v.len() as int] == x);
    }
}

/// Pushing a new member onto a list of a set lists the set with it.
proof fn lemma_lists_push(v: Seq<ObjectID>, s: Set<ObjectID>, x: ObjectID)
    requires
        lists(v, s),
        !s.contains(x),
    ensures
        lists(v.push(x), s.insert(x)),
{
    assert forall|y: ObjectID| #[trigger] v.push(x).contains(y) == s.insert(x).contains(y) by {
        lemma_push_contains(v, x, y);
    }
    assert forall|i: int, j: int| 0 <= i < j < v.push(x).len() implies v.push(x)[i] != v.push(x)[j] by {
        if j == v.len() {
            assert(v.contains(v[i]));
        } else {
            assert(v[i] != v[j]);
        }
    }
}

/// The members of `a` that are also in `b`.
fn intersect_lists(a: &Vec<ObjectID>, b: &Vec<ObjectID>) -> (r: Vec<ObjectID>)
    requires
        a@.no_duplicates(),
    ensures
        lists(r@, set_of(a@).intersect(set_of(b@))),
{
    let mut out: Vec<ObjectID> = Vec::new();
    let mut i: usize = 0;
    while i < a.len()
        invariant
            i <= a@.len(),
            a@.no_duplicates(),
            lists(out@, Set::new(|x: ObjectID| a@.take(i as int).contains(x) && b@.contains(x))),
        decreases a@.len() - i,
    {
        let x = a[i];
        let ghost before = Set::new(|y: ObjectID| a@.take(i as int).contains(y) && b@.contains(y));
        let ghost after = Set::new(|y: ObjectID| a@.take(i + 1).contains(y) && b@.contains(y));
        proof {
            assert(a@.take(i + 1) =~= a@.take(i as int).push(x));
            assert(!a@.take(i as int).contains(x)) by {
                if a@.take(i as int).contains(x) {
                    let k = choose|k: int| 0 <= k < i && a@.take(i as int)[k] == x;
                    assert(a@[k] == a@[i as int]);
                }
            }
            assert forall|y: ObjectID| a@.take(i + 1).contains(y) == (a@.take(i as int).contains(y) || y == x) by {
                lemma_push_contains(a@.take(i as int), x, y);
            }
        }
        if contains_id(b, x) {
            proof {
                lemma_lists_push(out@, before, x);
                assert(after =~= before.insert(x));
            }
            out.push(x);
        } else {
            assert(after =~= before);
        }
        i = i + 1;
    }
    assert(a@.take(i as int) =~= a@);
    out
}

/// The members of `a`, then those of `b` not in `a`.
fn union_lists(a: &Vec<ObjectID>, b: &Vec<ObjectID>) -> (r: Vec<ObjectID>)
    requires
        a@.no_duplicates(),
        b@.no_duplicates(),
    ensures
        lists(r@, set_of(a@).union(set_of(b@))),
{
    let mut out: Vec<ObjectID> = Vec::new();
    let mut i: usize = 0;
    while i < a.len()
        invariant
            i <= a@.len(),
            a@.no_duplicates(),
            out@ == a@.take(i as int),
        decreases a@.len() - i,
    {
        out.push(a[i]);
        assert(out@ =~= a@.take(i + 1));
        i = i + 1;
    }
    assert(out@ =~= a@);
    assert(Set::new(|x: ObjectID| a@.contains(x) || b@.take(0).contains(x)) =~= set_of(a@));
    let mut j: usize = 0;
    while j < b.len()
        invariant
            j <= b@.len(),
            a@.no_duplicates(),
            b@.no_duplicates(),
            lists(out@, Set::new(|x: ObjectID| a@.contains(x) || b@.take(j as int).contains(x))),
        decreases b@.len() - j,
    {
        let x = b[j];
        let ghost before = Set::new(|y: ObjectID| a@.contains(y) || b@.take(j as int).contains(y));
        let ghost after = Set::new(|y: ObjectID| a@.contains(y) || b@.take(j + 1).contains(y));
        proof {
            assert(b@.take(j + 1) =~= b@.take(j as int).push(x));
            assert forall|y: ObjectID| b@.take(j + 1).contains(y) == (b@.take(j as int).contains(y) || y == x) by {
                lemma_push_contains(b@.take(j as int), x, y);
            }
        }
        if !contains_id(&out, x) {
            proof {
                lemma_lists_push(out@, before, x);
                assert(after =~= before.insert(x));
            }
            out.push(x);
        } else {
            assert(after =~= before);
        }
        j = j + 1;
    }
    assert(b@.take(j as int) =~= b@);
    out
}

/// The members of `a` that are not in `b`.
fn difference_lists(a: &Vec<ObjectID>, b: &Vec<ObjectID>) -> (r: Vec<ObjectID>)
    requires
        a@.no_duplicates(),
    ensures
        lists(r@, set_of(a@).difference(set_of(b@))),
{
    let mut out: Vec<ObjectID> = Vec::new();
    let mut i: usize = 0;
    while i < a.len()
        invariant
            i <= a@.len(),
            a@.no_duplicates(),
            lists(out@, Set::new(|x: ObjectID| a@.take(i as int).contains(x) && !b@.contains(x))),
        decreases a@.len() - i,
    {
        let x = a[i];
        let ghost before = Set::new(|y: ObjectID| a@.take(i as int).contains(y) && !b@.contains(y));
        let ghost after = Set::new(|y: ObjectID| a@.take(i + 1).contains(y) && !b@.contains(y));
        proof {
            assert(a@.take(i + 1) =~= a@.take(i as int).push(x));
            assert(!a@.take(i as int).contains(x)) by {
                if a@.take(i as int).contains(x) {
                    let k = choose|k: int| 0 <= k < i && a@.take(i as int)[k] == x;
                    assert(a@[k] == a@[i as int]);
                }
            }
            assert forall|y: ObjectID| a@.take(i + 1).contains(y) == (a@.take(i as int).contains(y) || y == x) by {
                lemma_push_contains(a@.take(i as int), x, y);
            }
        }
        if !contains_id(b, x) {
            proof {
                lemma_lists_push(out@, before, x);
                assert(after =~= before.insert(x));
            }
            out.push(x);
        } else {
            assert(after =~= before);
        }
        i = i + 1;
    }
    assert(a@.take(i as int) =~= a@);
    out
}

/// A deduplicated list holds its set, each member once.
proof fn lemma_dedup_lists(s: Seq<ObjectID>)
    ensures
        lists(dedup(s), set_of(s)),
    decreases s.len(),
{
    if s.len() == 0 {
        assert(set_of(s) =~= Set::<ObjectID>::empty());
    } else {
        let t = s.drop_last();
        let x = s.last();
        lemma_dedup_lists(t);
        assert(t.push(x) =~= s);
        assert forall|y: ObjectID| s.contains(y) == (t.contains(y) || y == x) by {
            lemma_push_contains(t, x, y);
        }
        if dedup(t).contains(x) {
            assert(set_of(s) =~= set_of(t));
        } else {
            lemma_lists_push(dedup(t), set_of(t), x);
            assert(set_of(s) =~= set_of(t).insert(x));
        }
    }
}

/// The members of a list, each once, in order of first appearance.
fn dedup_ids(a: &Vec<ObjectID>) -> (r: Vec<ObjectID>)
    ensures
        r@ == dedup(a@),
        lists(r@, set_of(a@)),
{
    let mut out: Vec<ObjectID> = Vec::new();
    let mut i: usize = 0;
    while i < a.len()
        invariant
            i <= a@.len(),
            out@ == dedup(a@.take(i as int)),
        decreases a@.len() - i,
    {
        let x = a[i];
        assert(a@.take(i + 1).drop_last() =~= a@.take(i as int));
        if !contains_id(&out, x) {
            out.push(x);
        }
        i = i + 1;
    }
    assert(a@.take(i as int) =~= a@);
    proof {
        lemma_dedup_lists(a@);
    }
    out
}

/// Membership in the tag hits of a list.
proof fn lemma_tag_hits(cat: Catalog, key: Seq<char>, s: Seq<ObjectID>, y: ObjectID)
    ensures
        tag_hits(cat, key, s).contains(y) == (s.contains(y) && tagged_under(cat, y, key)),
    decreases s.len(),
{
    if s.len() > 0 {
        let t = s.drop_last();
        lemma_tag_hits(cat, key, t, y);
        assert(t.push(s.last()) =~= s);
        lemma_push_contains(t, s.last(), y);
        if tagged_under(cat, s.last(), key) {
            lemma_push_contains(tag_hits(cat, key, t), s.last(), y);
            assert(tag_hits(cat, key, t) + seq![s.last()] =~= tag_hits(cat, key, t).push(s.last()));
        } else {
            assert(tag_hits(cat, key, t) + seq![] =~= tag_hits(cat, key, t));
        }
    }
}

/// Membership in a concatenation.
proof fn lemma_concat_contains(a: Seq<ObjectID>, b: Seq<ObjectID>, y: ObjectID)
    ensures
        (a + b).contains(y) == (a.contains(y) || b.contains(y)),
{
    if (a + b).contains(y) {
        let k = choose|k: int| 0 <= k < (a + b).len() && (a + b)[k] == y;
        if k < a.len() {
            assert(a[k] == y);
        } else {
            assert(b[k - a.len()] == y);
        }
    }
    if a.contains(y) {
        let k = choose|k: int| 0 <= k < a.len() && a[k] == y;
        assert((a + b)[k] == y);
    }
    if b.contains(y) {
        let k = choose|k: int| 0 <= k < b.len() && b[k] == y;
        assert((a + b)[k + a.len()] == y);
    }
}

/// The known objects, listed in order, are the universe.
proof fn lemma_universe_order(cat: Catalog)
    ensures
        lists(universe_order(cat), universe(cat)),
{
    let vm = cat.versions@.map_values(|v: crate::model::object::Version| v.object_id);
    lemma_dedup_lists(vm);
    assert forall|y: ObjectID| set_of(vm).contains(y) == universe(cat).contains(y) by {
        if set_of(vm).contains(y) {
            let k = choose|k: int| 0 <= k < vm.len() && vm[k] == y;
            assert(cat.versions@[k].object_id == y);
        }
        if universe(cat).contains(y) {
            let k = choose|k: int| 0 <= k < cat.versions@.len() && #[trigger] cat.versions@[k].object_id == y;
            assert(vm[k] == y);
        }
    }
}

/// The tag order lists the tag set.
proof fn lemma_tag_order(cat: Catalog, key: Seq<char>)
    ensures
        lists(tag_order(cat, key), tag_set(cat, key)),
{
    let a = ids_of(cat.tagged(key));
    let b = tag_hits(cat, key, universe_order(cat));
    lemma_dedup_lists(a + b);
    lemma_universe_order(cat);
    assert forall|y: ObjectID| set_of(a + b).contains(y) == tag_set(cat, key).contains(y) by {
        lemma_concat_contains(a, b, y);
        lemma_tag_hits(cat, key, universe_order(cat), y);
    }
}

/// Listing a reference's targets in order lists its target set.
proof fn lemma_target_order(cat: Catalog, r: ObjectRefV)
    ensures
        match target_order(cat, r) {
            Ok(s) => target_set(cat, r) == Ok::<Set<ObjectID>, LookupFailure>(set_of(s)) && s.no_duplicates(),
            Err(f) => target_set(cat, r) == Err::<Set<ObjectID>, LookupFailure>(f),
        },
{
    match r {
        ObjectRefV::Tag(path) => {
            let key = joined(path, ":"@);
            lemma_tag_order(cat, key);
            assert(set_of(tag_order(cat, key)) =~= tag_set(cat, key));
        },
        _ => {
            if let Ok(s) = cat.ref_targets(r) {
                lemma_dedup_lists(s);
                assert(set_of(dedup(s)) =~= set_of(s));
            }
        },
    }
}


// ---- Checking objects ----

/// Whether some tag falls under a key.
fn tags_under(tags: &Vec<Tag>, key: &str) -> (r: bool)
    ensures
        r == has_tag_under(tags@, key@),
{
    let mut i: usize = 0;
    while i < tags.len()
        invariant
            i <= tags@.len(),
            forall|j: int| 0 <= j < i ==> !explain_tag_match(tag_path(#[trigger] tags@[j].key@, tags@[j].value@), key@),
        decreases tags@.len() - i,
    {
        let full = tags[i].full_path();
        if explain_tag_matches(full.as_str(), key) {
            return true;
        }
        i = i + 1;
    }
    false
}

/// Whether some `auto:mimetype` tag matches a pattern.
fn tags_have_mime(tags: &Vec<Tag>, mime: &crate::query::ast::MimePattern) -> (r: bool)
    ensures
        r == has_mime(tags@, mime@),
{
    let mut i: usize = 0;
    while i < tags.len()
        invariant
            i <= tags@.len(),
            forall|j: int|
                0 <= j < i ==> !(#[trigger] tags@[j].key@ == "auto:mimetype"@ && mime_matches(mime@, tags@[j].value@)),
        decreases tags@.len() - i,
    {
        if str_eq(tags[i].key.as_str(), "auto:mimetype") && mime.matches(tags[i].value.as_str()) {
            return true;
        }
        i = i + 1;
    }
    false
}

/// Whether some `References` link points into the targets.
fn links_point_into(links: &Vec<Link>, targets: &Vec<ObjectID>) -> (r: bool)
    ensures
        r == links_into(links@, set_of(targets@)),
{
    let mut i: usize = 0;
    while i < links.len()
        invariant
            i <= links@.len(),
            forall|j: int|
                0 <= j < i ==> !(links@[j].link_type == LinkType::References && links@[j].target@.len() == 16
                    && set_of(targets@).contains(id_of_bytes(#[trigger] links@[j].target@))),
        decreases links@.len() - i,
    {
        let l = &links[i];
        let is_ref = match l.link_type {
            LinkType::References => true,
            _ => false,
        };
        if is_ref {
            match object_id_from_bytes(l.target.as_slice()) {
                Some(t) => {
                    if contains_id(targets, t) {
                        return true;
                    }
                },
                None => {},
            }
        }
        i = i + 1;
    }
    false
}

/// Runs queries over a catalog.
pub struct QueryEvaluator<'a> {
    store: &'a Catalog,
}

impl<'a> QueryEvaluator<'a> {
    /// The catalog this evaluator reads.
    pub closed spec fn catalog(&self) -> Catalog {
        *self.store
    }

    /// An evaluator over a catalog.
    pub fn new(store: &'a Catalog) -> (r: QueryEvaluator<'a>)
        ensures
            r.catalog() == *store,
    {
        QueryEvaluator { store }
    }

    /// The objects some version belongs to, in order of their first version.
    fn all_object_ids(&self) -> (r: Vec<ObjectID>)
        ensures
            r@ == universe_order(self.catalog()),
            lists(r@, universe(self.catalog())),
    {
        let vs = &self.store.versions;
        let ghost vm = vs@.map_values(|v: crate::model::object::Version| v.object_id);
        let mut out: Vec<ObjectID> = Vec::new();
        let mut i: usize = 0;
        while i < vs.len()
            invariant
                i <= vs@.len(),
                *vs == self.catalog().versions,
                vm == vs@.map_values(|v: crate::model::object::Version| v.object_id),
                out@ == dedup(vm.take(i as int)),
            decreases vs@.len() - i,
        {
            let x = vs[i].object_id;
            assert(vm.take(i + 1).drop_last() =~= vm.take(i as int));
            if !contains_id(&out, x) {
                out.push(x);
            }
            i = i + 1;
        }
        assert(vm.take(i as int) =~= vm);
        proof {
            lemma_universe_order(self.catalog());
        }
        out
    }

    /// The objects a tag key selects, in order (see `tag_order`).
    fn tag_ids(&self, key: &str) -> (r: Vec<ObjectID>)
        ensures
            r@ == tag_order(self.catalog(), key@),
            lists(r@, tag_set(self.catalog(), key@)),
    {
        let ghost cat = self.catalog();
        let indexed = Catalog::ids_from_bytes(self.store.query_by_tag(key));
        let mut out = dedup_ids(&indexed);
        let univ = self.all_object_ids();
        assert(indexed@ + tag_hits(cat, key@, univ@.take(0)) =~= indexed@);
        let mut i: usize = 0;
        while i < univ.len()
            invariant
                i <= univ@.len(),
                cat == self.catalog(),
                indexed@ == ids_of(cat.tagged(key@)),
                univ@ == universe_order(cat),
                out@ == dedup(indexed@ + tag_hits(cat, key@, univ@.take(i as int))),
            decreases univ@.len() - i,
        {
            let x = univ[i];
            assert(univ@.take(i + 1).drop_last() =~= univ@.take(i as int));
            let found = match self.store.load_object(&x) {
                Ok(o) => tags_under(&o.tags, key),
                Err(_) => false,
            };
            assert(found == tagged_under(cat, x, key@));
            if found {
                assert(indexed@ + tag_hits(cat, key@, univ@.take(i + 1)) =~= (indexed@ + tag_hits(
                    cat,
                    key@,
                    univ@.take(i as int),
                )).push(x));
                let ghost prev = indexed@ + tag_hits(cat, key@, univ@.take(i as int));
                assert(prev.push(x).drop_last() =~= prev);
                if !contains_id(&out, x) {
                    out.push(x);
                }
            } else {
                assert(indexed@ + tag_hits(cat, key@, univ@.take(i + 1)) =~= indexed@ + tag_hits(
                    cat,
                    key@,
                    univ@.take(i as int),
                ));
            }
            i = i + 1;
        }
        assert(univ@.take(i as int) =~= univ@);
        proof {
            lemma_tag_order(cat, key@);
        }
        out
    }

    /// Whether a stored object satisfies a predicate checked object by object.
    fn satisfies(&self, o: &Object, pred: &Predicate, targets: &Vec<ObjectID>, now: i64) -> (r: bool)
        ensures
            r == object_satisfies(self.catalog(), *o, pred@, set_of(targets@), now),
    {
        match pred {
            Predicate::Type { mime } => tags_have_mime(&o.tags, mime),
            Predicate::State { state } => match self.store.load_version(&o.current_version) {
                Ok(v) => v.state == *state,
                Err(_) => false,
            },
            Predicate::Trust { op, level } => compare(*op, trust_level(o.tags.as_slice()), level.value()),
            Predicate::Time { field, op, value } => {
                let ts = match field {
                    TimeField::Created => o.created_at,
                    TimeField::Updated => match self.store.load_version(&o.current_version) {
                        Ok(v) => v.created_at,
                        Err(_) => o.created_at,
                    },
                };
                time_holds(*op, *value, ts, now)
            },
            Predicate::References { .. } => links_point_into(&o.links, targets),
            _ => false,
        }
    }

    /// The known, stored objects that satisfy a predicate checked object by object.
    fn scan(&self, pred: &Predicate, targets: &Vec<ObjectID>, now: i64) -> (r: Vec<ObjectID>)
        ensures
            lists(r@, scan_set(self.catalog(), pred@, set_of(targets@), now)),
    {
        let ghost cat = self.catalog();
        let ghost ts = set_of(targets@);
        let univ = self.all_object_ids();
        let mut out: Vec<ObjectID> = Vec::new();
        let mut i: usize = 0;
        while i < univ.len()
            invariant
                i <= univ@.len(),
                cat == self.catalog(),
                ts == set_of(targets@),
                lists(univ@, universe(cat)),
                lists(
                    out@,
                    Set::new(
                        |y: ObjectID|
                            univ@.take(i as int).contains(y) && match cat.object(y) {
                                Some(o) => object_satisfies(cat, o, pred@, ts, now),
                                None => false,
                            },
                    ),
                ),
            decreases univ@.len() - i,
        {
            let x = univ[i];
            let ghost before = Set::new(
                |y: ObjectID|
                    univ@.take(i as int).contains(y) && match cat.object(y) {
                        Some(o) => object_satisfies(cat, o, pred@, ts, now),
                        None => false,
                    },
            );
            let ghost after = Set::new(
                |y: ObjectID|
                    univ@.take(i + 1).contains(y) && match cat.object(y) {
                        Some(o) => object_satisfies(cat, o, pred@, ts, now),
                        None => false,
                    },
            );
            proof {
                assert(univ@.take(i + 1) =~= univ@.take(i as int).push(x));
                assert forall|y: ObjectID| univ@.take(i + 1).contains(y) == (univ@.take(i as int).contains(y) || y == x) by {
                    lemma_push_contains(univ@.take(i as int), x, y);
                }
                assert(!univ@.take(i as int).contains(x)) by {
                    if univ@.take(i as int).contains(x) {
                        let k = choose|k: int| 0 <= k < i && univ@.take(i as int)[k] == x;
                        assert(univ@[k] == univ@[i as int]);
                    }
                }
            }
            let hit = match self.store.load_object(&x) {
                Ok(o) => self.satisfies(o, pred, targets, now),
                Err(_) => false,
            };
            if hit {
                proof {
                    lemma_lists_push(out@, before, x);
                    assert(after =~= before.insert(x));
                }
                out.push(x);
            } else {
                assert(after =~= before);
            }
            i = i + 1;
        }
        proof {
            assert(univ@.take(i as int) =~= univ@);
            assert(Set::new(
                |y: ObjectID|
                    univ@.take(i as int).contains(y) && match cat.object(y) {
                        Some(o) => object_satisfies(cat, o, pred@, ts, now),
                        None => false,
                    },
            ) =~= scan_set(cat, pred@, ts, now));
        }
        out
    }

    /// The objects a reference resolves to, in order (see `target_order`).
    fn target_ids(&self, reference: &ObjectRef) -> (r: Result<Vec<ObjectID>, LatticeError>)
        ensures
            match target_order(self.catalog(), reference@) {
                Ok(s) => r matches Ok(v) && v@ == s,
                Err(f) => r matches Err(e) && failure_matches(e, f),
            },
    {
        match reference {
            ObjectRef::Tag(path) => {
                let key = join_strings(path, ":");
                Ok(self.tag_ids(key.as_str()))
            },
            _ => match self.store.resolve_object_ref(reference) {
                Ok(v) => Ok(dedup_ids(&v)),
                Err(e) => Err(e),
            },
        }
    }
}


impl<'a> QueryEvaluator<'a> {
    /// Evaluate a predicate at `now`.
    fn evaluate_predicate(&self, pred: &Predicate, now: i64) -> (r: Result<Vec<ObjectID>, LatticeError>)
        ensures
            set_result(r, predicate_set(self.catalog(), pred@, now)),
    {
        let ghost cat = self.catalog();
        match pred {
            Predicate::Tag { path } => {
                let key = join_strings(path, ":");
                Ok(self.tag_ids(key.as_str()))
            },
            Predicate::Ref { reference } => match reference {
                ObjectRef::Id(x) => match self.store.load_object(x) {
                    Ok(_) => {
                        let v = vec![*x];
                        proof {
                            assert forall|y: ObjectID| #[trigger] v@.contains(y) == Set::empty().insert(*x).contains(y) by {
                                if v@.contains(y) {
                                    let k = choose|k: int| 0 <= k < v@.len() && v@[k] == y;
                                }
                                if y == *x {
                                    assert(v@[0] == *x);
                                }
                            }
                        }
                        Ok(v)
                    },
                    Err(_) => {
                        let v: Vec<ObjectID> = Vec::new();
                        assert forall|y: ObjectID| #[trigger] v@.contains(y) == Set::<ObjectID>::empty().contains(y) by {}
                        Ok(v)
                    },
                },
                _ => {
                    proof {
                        lemma_target_order(cat, reference@);
                    }
                    self.target_ids(reference)
                },
            },
            Predicate::References { target } => {
                proof {
                    lemma_target_order(cat, target@);
                }
                let ts = match self.target_ids(target) {
                    Ok(t) => t,
                    Err(e) => return Err(e),
                };
                Ok(self.scan(pred, &ts, now))
            },
            Predicate::Closure { root } => {
                let roots = match self.target_ids(root) {
                    Ok(t) => t,
                    Err(e) => return Err(e),
                };
                match self.store.closure_from_roots(roots) {
                    Ok(v) => Ok(dedup_ids(&v)),
                    Err(e) => Err(e),
                }
            },
            _ => {
                let none: Vec<ObjectID> = Vec::new();
                assert(set_of(none@) =~= Set::<ObjectID>::empty());
                Ok(self.scan(pred, &none, now))
            },
        }
    }

    /// Evaluate an expression at `now`.
    fn evaluate_expr(&self, expr: &Expr, now: i64) -> (r: Result<Vec<ObjectID>, LatticeError>)
        ensures
            set_result(r, expr_set(self.catalog(), expr@, now)),
        decreases expr,
    {
        let ghost cat = self.catalog();
        match expr {
            Expr::And(left, right) => {
                let a = match self.evaluate_expr(left, now) {
                    Ok(v) => v,
                    Err(e) => return Err(e),
                };
                let b = match self.evaluate_expr(right, now) {
                    Ok(v) => v,
                    Err(e) => return Err(e),
                };
                let v = intersect_lists(&a, &b);
                proof {
                    let sa = expr_set(cat, left@, now)->Ok_0;
                    let sb = expr_set(cat, right@, now)->Ok_0;
                    assert(set_of(a@).intersect(set_of(b@)) =~= sa.intersect(sb));
                }
                Ok(v)
            },
            Expr::Or(left, right) => {
                let a = match self.evaluate_expr(left, now) {
                    Ok(v) => v,
                    Err(e) => return Err(e),
                };
                let b = match self.evaluate_expr(right, now) {
                    Ok(v) => v,
                    Err(e) => return Err(e),
                };
                let v = union_lists(&a, &b);
                proof {
                    let sa = expr_set(cat, left@, now)->Ok_0;
                    let sb = expr_set(cat, right@, now)->Ok_0;
                    assert(set_of(a@).union(set_of(b@)) =~= sa.union(sb));
                }
                Ok(v)
            },
            Expr::Not(inner) => {
                let x = match self.evaluate_expr(inner, now) {
                    Ok(v) => v,
                    Err(e) => return Err(e),
                };
                let univ = self.all_object_ids();
                let v = difference_lists(&univ, &x);
                proof {
                    let si = expr_set(cat, inner@, now)->Ok_0;
                    assert(set_of(univ@).difference(set_of(x@)) =~= universe(cat).difference(si));
                }
                Ok(v)
            },
            Expr::Predicate(p) => self.evaluate_predicate(p, now),
        }
    }
}

/// Only objects of the list get keys.
proof fn lemma_keyed_len(cat: Catalog, all: Seq<ObjectID>, f: SortField)
    ensures
        keyed(cat, all, f).len() <= all.len(),
    decreases all.len(),
{
    if all.len() > 0 {
        lemma_keyed_len(cat, all.drop_last(), f);
    }
}

/// Whether a key may come before another.
fn key_goes_before(a: i64, b: i64, d: SortDirection) -> (r: bool)
    ensures
        r == key_before(a, b, d),
{
    match d {
        SortDirection::Asc => a <= b,
        SortDirection::Desc => a >= b,
    }
}

/// Inserting after every key that may come before keeps keys sorted.
proof fn lemma_sorted_insert(s: Seq<(ObjectID, i64)>, j: int, x: (ObjectID, i64), d: SortDirection)
    requires
        sorted_by_key(s, d),
        0 <= j <= s.len(),
        forall|m: int| 0 <= m < j ==> key_before(#[trigger] s[m].1, x.1, d),
        j < s.len() ==> !key_before(s[j].1, x.1, d),
    ensures
        sorted_by_key(s.insert(j, x), d),
{
    let t = s.insert(j, x);
    assert forall|p: int, q: int| 0 <= p < q < t.len() implies key_before(#[trigger] t[p].1, #[trigger] t[q].1, d) by {
        if q < j {
            assert(t[p] == s[p] && t[q] == s[q]);
        } else if q == j {
            assert(t[p] == s[p] && t[q] == x);
        } else if p < j {
            assert(t[p] == s[p] && t[q] == s[q - 1]);
        } else if p == j {
            assert(t[p] == x && t[q] == s[q - 1]);
            assert(key_before(s[j].1, s[q - 1].1, d) || j == q - 1);
        } else {
            assert(t[p] == s[p - 1] && t[q] == s[q - 1]);
        }
    }
}

impl<'a> QueryEvaluator<'a> {
    /// The key an object sorts by (see `sort_key`).
    fn sort_key_of(&self, x: ObjectID, field: SortField) -> (r: Option<i64>)
        ensures
            r == sort_key(self.catalog(), x, field),
    {
        let o = match self.store.load_object(&x) {
            Ok(o) => o,
            Err(_) => return None,
        };
        match field {
            SortField::Created => Some(o.created_at),
            SortField::Updated => match self.store.load_version(&o.current_version) {
                Ok(v) => Some(v.created_at),
                Err(_) => None,
            },
            SortField::Size => match self.store.load_version(&o.current_version) {
                Ok(v) => Some(v.size_bytes as i64),
                Err(_) => None,
            },
            SortField::Trust => Some(
                match first_tag_value_of(&o.tags, "sys:trust") {
                    Some(t) => match parse_i64(t.as_str()) {
                        Some(n) => n,
                        None => 75,
                    },
                    None => 75,
                },
            ),
        }
    }

    /// Order results by a field: the objects that have a key are sorted by
    /// it (ties keep their order) and written over the front of the list.
    fn apply_sort(&self, results: &mut Vec<ObjectID>, order: OrderBy)
        ensures
            arranged(self.catalog(), old(results)@, Some(order), final(results)@),
    {
        let ghost cat = self.catalog();
        let ghost all = results@;
        let mut keyed_v: Vec<(ObjectID, i64)> = Vec::new();
        let mut i: usize = 0;
        while i < results.len()
            invariant
                i <= results@.len(),
                results@ == all,
                cat == self.catalog(),
                keyed_v@ == keyed(cat, all.take(i as int), order.field),
            decreases results@.len() - i,
        {
            assert(all.take(i + 1).drop_last() =~= all.take(i as int));
            let x = results[i];
            match self.sort_key_of(x, order.field) {
                Some(k) => keyed_v.push((x, k)),
                None => {},
            }
            i = i + 1;
        }
        assert(all.take(i as int) =~= all);
        let mut sorted: Vec<(ObjectID, i64)> = Vec::new();
        proof {
            assert(keyed_v@.take(0) =~= Seq::<(ObjectID, i64)>::empty());
            assert(sorted@ =~= Seq::<(ObjectID, i64)>::empty());
            vstd::seq_lib::to_multiset_len(keyed_v@.take(0));
            vstd::seq_lib::to_multiset_len(sorted@);
            assert(sorted@.to_multiset() =~= keyed_v@.take(0).to_multiset());
        }
        let mut i: usize = 0;
        while i < keyed_v.len()
            invariant
                i <= keyed_v@.len(),
                sorted@.to_multiset() == keyed_v@.take(i as int).to_multiset(),
                sorted_by_key(sorted@, order.direction),
            decreases keyed_v@.len() - i,
        {
            let item = keyed_v[i];
            let mut j: usize = 0;
            while j < sorted.len() && key_goes_before(sorted[j].1, item.1, order.direction)
                invariant
                    j <= sorted@.len(),
                    forall|m: int| 0 <= m < j ==> key_before(#[trigger] sorted@[m].1, item.1, order.direction),
                decreases sorted@.len() - j,
            {
                j = j + 1;
            }
            proof {
                lemma_sorted_insert(sorted@, j as int, item, order.direction);
                vstd::seq_lib::to_multiset_insert(sorted@, j as int, item);
                assert(keyed_v@.take(i + 1) =~= keyed_v@.take(i as int).push(item));
                vstd::seq_lib::to_multiset_build(keyed_v@.take(i as int), item);
            }
            sorted.insert(j, item);
            i = i + 1;
        }
        assert(keyed_v@.take(i as int) =~= keyed_v@);
        proof {
            vstd::seq_lib::to_multiset_len(sorted@);
            vstd::seq_lib::to_multiset_len(keyed_v@);
            lemma_keyed_len(cat, all, order.field);
        }
        let mut w: usize = 0;
        while w < sorted.len()
            invariant
                w <= sorted@.len(),
                sorted@.len() <= all.len(),
                results@.len() == all.len(),
                forall|m: int| 0 <= m < w ==> results@[m] == sorted@[m].0,
                forall|m: int| w <= m < all.len() ==> results@[m] == all[m],
            decreases sorted@.len() - w,
        {
            results.set(w, sorted[w].0);
            w = w + 1;
        }
        assert(results@ =~= sorted@.map_values(|p: (ObjectID, i64)| p.0) + all.skip(sorted@.len() as int));
    }

    /// Run a query with time predicates judged at `now` (microseconds since
    /// the epoch): the matching objects, each once, arranged by the query's
    /// ordering and cut to its limit.
    pub fn execute_at(&self, query: &Query, now: i64) -> (r: Result<Vec<ObjectID>, LatticeError>)
        ensures
            exists|o: Result<Seq<ObjectID>, LookupFailure>|
                #[trigger] execute_outcome(self.catalog(), query@, now, o) && list_result(r, o),
    {
        let ghost cat = self.catalog();
        let mut results = match self.evaluate_expr(&query.expr, now) {
            Ok(v) => v,
            Err(e) => {
                let r = Err(e);
                proof {
                    let o = Err::<Seq<ObjectID>, LookupFailure>(expr_set(cat, query.expr@, now)->Err_0);
                    assert(execute_outcome(cat, query@, now, o) && list_result(r, o));
                }
                return r;
            },
        };
        let ghost all = results@;
        match query.order {
            Some(order) => self.apply_sort(&mut results, order),
            None => {},
        }
        let ghost out = results@;
        match query.limit {
            Some(n) => results.truncate(n),
            None => {},
        }
        proof {
            assert(results@ =~= limited(out, query.limit));
            let o = Ok::<Seq<ObjectID>, LookupFailure>(results@);
            assert(lists(all, expr_set(cat, query.expr@, now)->Ok_0));
            assert(arranged(cat, all, query.order, out));
            assert(execute_outcome(cat, query@, now, o));
        }
        Ok(results)
    }

    /// Run a query with time predicates judged at the current time.
    pub fn execute(&self, query: &Query) -> (r: Result<Vec<ObjectID>, LatticeError>)
        ensures
            exists|now: i64, o: Result<Seq<ObjectID>, LookupFailure>|
                #[trigger] execute_outcome(self.catalog(), query@, now, o) && list_result(r, o),
    {
        let now = crate::model::tag::timestamp_now();
        self.execute_at(query, now)
    }
}

} // verus!
