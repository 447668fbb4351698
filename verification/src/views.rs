//! Views: built-in views, dynamic view settings, and the composition of a
//! nested view's query with those of its parents.

pub mod builtin;
pub mod dynamic;
pub mod snapshot;

use vstd::prelude::*;
use vstd::view::View as _;
use crate::error::LatticeError;
use crate::model::object::{new_uuid_v4, u128_be_bytes, u128_to_be_bytes, uuid_text, uuid_to_string};
use crate::model::tag::{timestamp_now, Timestamp};
use crate::query::catalog::{first_key_pos, is_first_key, lemma_exists_first, lemma_first_key, lemma_first_key_push, lemma_first_pos};
use crate::text::{push_char, str_eq, string_of, string_views};
use crate::query::lexer::{decimal_chars, push_decimal};
use crate::views::dynamic::ViewConfig;

verus! {

/// Default bound on the depth of a view's parent chain.
pub const DEFAULT_MAX_PARENT_DEPTH: u32 = 16;

/// How the queries of a view and its parents are combined.
#[derive(Debug, Clone, Copy, PartialEq, Eq, Structural)]
pub enum ViewJoinOperator {
    /// Intersection: `AND`.
    And,
    /// Union: `OR`.
    Or,
}

/// The LQL keyword of a join operator.
pub open spec fn join_keyword(op: ViewJoinOperator) -> Seq<char> {
    match op {
        ViewJoinOperator::And => "AND"@,
        ViewJoinOperator::Or => "OR"@,
    }
}

impl ViewJoinOperator {
    /// The LQL keyword: `AND` or `OR`.
    pub fn as_keyword(self) -> (r: &'static str)
        ensures
            r@ == join_keyword(self),
    {
        match self {
            ViewJoinOperator::And => "AND",
            ViewJoinOperator::Or => "OR",
        }
    }
}

/// How an effective query is formed from a chain of nested views.
#[derive(Debug, Clone, Copy, PartialEq, Eq, Structural)]
pub struct EffectiveQueryOptions {
    /// Longest parent chain allowed.
    pub max_parent_depth: u32,
    /// Operator joining the queries.
    pub join_operator: ViewJoinOperator,
}

impl Default for EffectiveQueryOptions {
    fn default() -> (r: EffectiveQueryOptions)
        ensures
            r == (EffectiveQueryOptions { max_parent_depth: DEFAULT_MAX_PARENT_DEPTH, join_operator: ViewJoinOperator::And }),
    {
        EffectiveQueryOptions { max_parent_depth: DEFAULT_MAX_PARENT_DEPTH, join_operator: ViewJoinOperator::And }
    }
}

/// `(q)`
pub open spec fn parenthesized(q: Seq<char>) -> Seq<char> {
    seq!['('] + q + seq![')']
}

/// The queries, each in parentheses, joined by ` KEYWORD `.
pub open spec fn joined_queries(qs: Seq<Seq<char>>, op: ViewJoinOperator) -> Seq<char>
    decreases qs.len(),
{
    if qs.len() == 0 {
        seq![]
    } else if qs.len() == 1 {
        parenthesized(qs[0])
    } else {
        joined_queries(qs.drop_last(), op) + seq![' '] + join_keyword(op) + seq![' '] + parenthesized(qs.last())
    }
}

/// Join queries outermost-first: `(q0) AND (q1) AND ...` (or `OR`).
pub fn join_queries(queries: &Vec<String>, op: ViewJoinOperator) -> (r: String)
    ensures
        r@ == joined_queries(queries@.map_values(|q: String| q@), op),
{
    let ghost qs = queries@.map_values(|q: String| q@);
    let mut out = string_of("");
    proof {
        reveal_strlit("");
    }
    let mut i: usize = 0;
    while i < queries.len()
        invariant
            qs == queries@.map_values(|q: String| q@),
            i <= queries@.len(),
            out@ == joined_queries(qs.take(i as int), op),
        decreases queries@.len() - i,
    {
        assert(qs.take(i + 1).drop_last() =~= qs.take(i as int));
        if i > 0 {
            push_char(&mut out, ' ');
            out.append(op.as_keyword());
            push_char(&mut out, ' ');
        }
        push_char(&mut out, '(');
        out.append(queries[i].as_str());
        push_char(&mut out, ')');
        proof {
            assert(qs.take(i + 1).last() == queries@[i as int]@);
            if i == 0 {
                assert(out@ =~= parenthesized(qs.take(1)[0]));
            } else {
                assert(out@ =~= joined_queries(qs.take(i as int), op) + seq![' '] + join_keyword(op) + seq![' ']
                    + parenthesized(qs.take(i + 1).last()));
            }
        }
        i = i + 1;
    }
    assert(qs.take(i as int) =~= qs);
    out
}


/// The identifier of a view: a UUID, held as its 128-bit value.
#[derive(Debug, Clone, Copy, PartialEq, Eq, Hash, Structural)]
pub struct ViewID(pub u128);

impl ViewID {
    /// A fresh random identifier.
    pub fn new() -> (r: ViewID) {
        ViewID(new_uuid_v4())
    }

    /// The identifier with this UUID value.
    pub fn from_uuid(uuid: u128) -> (r: ViewID)
        ensures
            r.0 == uuid,
    {
        ViewID(uuid)
    }

    /// The UUID value.
    pub fn as_uuid(&self) -> (r: u128)
        ensures
            r == self.0,
    {
        self.0
    }

    /// The UUID's 16 bytes, most significant first.
    pub fn as_bytes(&self) -> (r: [u8; 16])
        ensures
            r@ == u128_be_bytes(self.0),
    {
        u128_to_be_bytes(self.0)
    }

    /// The hyphenated text of the UUID (what `Display` prints).
    pub fn to_string(&self) -> (r: String)
        ensures
            r@ == uuid_text(self.0),
    {
        uuid_to_string(self.0)
    }
}

/// A view: a named LQL query, possibly nested under a parent view.
#[derive(Debug, Clone)]
pub struct View {
    pub id: ViewID,
    pub name: String,
    pub description: Option<String>,
    /// The LQL query that defines the view.
    pub query: String,
    pub created_at: Timestamp,
    pub modified_at: Timestamp,
    /// Who created the view (actor public key).
    pub created_by: [u8; 32],
    pub config: ViewConfig,
    /// The parent view, for nesting.
    pub parent_id: Option<ViewID>,
}

impl View {
    /// A view created at `now`, with the default settings and no parent.
    pub fn new_at(name: String, query: String, created_by: [u8; 32], id: ViewID, now: Timestamp) -> (r: View)
        ensures
            r.id == id,
            r.name@ == name@,
            r.query@ == query@,
            r.description is None,
            r.created_at == now,
            r.modified_at == now,
            r.created_by == created_by,
            r.config == (ViewConfig { max_results: None, cache_ttl_secs: 60, include_archived: false, min_trust_level: None }),
            r.parent_id is None,
    {
        View {
            id,
            name,
            description: None,
            query,
            created_at: now,
            modified_at: now,
            created_by,
            config: ViewConfig::default(),
            parent_id: None,
        }
    }

    /// A new view with a fresh identifier, created now.
    pub fn new(name: String, query: String, created_by: [u8; 32]) -> (r: View)
        ensures
            r.name@ == name@,
            r.query@ == query@,
            r.description is None,
            r.created_at == r.modified_at,
            r.created_by == created_by,
            r.config == (ViewConfig { max_results: None, cache_ttl_secs: 60, include_archived: false, min_trust_level: None }),
            r.parent_id is None,
    {
        View::new_at(name, query, created_by, ViewID::new(), timestamp_now())
    }

    /// The view with a description.
    pub fn with_description(self, description: String) -> (r: View)
        ensures
            r.description matches Some(d) && d@ == description@,
            r.id == self.id && r.name == self.name && r.query == self.query && r.parent_id == self.parent_id,
            r.config == self.config && r.created_at == self.created_at && r.modified_at == self.modified_at,
    {
        View { description: Some(description), ..self }
    }

    /// The view with other settings.
    pub fn with_config(self, config: ViewConfig) -> (r: View)
        ensures
            r.config == config,
            r.id == self.id && r.name == self.name && r.query == self.query && r.parent_id == self.parent_id,
            r.description == self.description && r.created_at == self.created_at && r.modified_at == self.modified_at,
    {
        View { config, ..self }
    }

    /// Replace the query, marking the view modified at `now`.
    pub fn update_query_at(&mut self, query: String, now: Timestamp)
        ensures
            final(self).query@ == query@,
            final(self).modified_at == now,
            final(self).id == old(self).id && final(self).name == old(self).name,
            final(self).parent_id == old(self).parent_id && final(self).config == old(self).config,
            final(self).created_at == old(self).created_at,
    {
        self.query = query;
        self.modified_at = now;
    }

    /// Replace the query, marking the view modified now.
    pub fn update_query(&mut self, query: String)
        ensures
            final(self).query@ == query@,
            final(self).id == old(self).id && final(self).name == old(self).name,
            final(self).parent_id == old(self).parent_id,
    {
        self.update_query_at(query, timestamp_now());
    }

    /// The view nested under a parent.
    pub fn with_parent(self, parent_id: ViewID) -> (r: View)
        ensures
            r.parent_id == Some(parent_id),
            r.id == self.id && r.name == self.name && r.query == self.query && r.config == self.config,
            r.description == self.description,
    {
        View { parent_id: Some(parent_id), ..self }
    }
}

/// The identifiers of views.
pub open spec fn view_ids(vs: Seq<View>) -> Seq<ViewID> {
    vs.map_values(|v: View| v.id)
}

/// The names of name entries.
pub open spec fn entry_names(ns: Seq<(String, ViewID)>) -> Seq<Seq<char>> {
    ns.map_values(|e: (String, ViewID)| e.0@)
}

/// The first view with an identifier.
pub open spec fn view_in(vs: Seq<View>, id: ViewID) -> Option<View> {
    match first_key_pos(view_ids(vs), id) {
        Some(i) => Some(vs[i]),
        None => None,
    }
}

/// The identifier of the first entry for a name.
pub open spec fn name_in(ns: Seq<(String, ViewID)>, name: Seq<char>) -> Option<ViewID> {
    match first_key_pos(entry_names(ns), name) {
        Some(i) => Some(ns[i].1),
        None => None,
    }
}

/// View definitions by identifier, and identifiers by name.
pub struct ViewStore {
    views: Vec<View>,
    names: Vec<(String, ViewID)>,
}

impl ViewStore {
    #[verifier::type_invariant]
    spec fn keys_distinct(&self) -> bool {
        &&& view_ids(self.views@).no_duplicates()
        &&& entry_names(self.names@).no_duplicates()
    }

    /// The view stored under an identifier.
    pub closed spec fn view_for(&self, id: ViewID) -> Option<View> {
        view_in(self.views@, id)
    }

    /// The identifier a name is registered for.
    pub closed spec fn id_for_name(&self, name: Seq<char>) -> Option<ViewID> {
        name_in(self.names@, name)
    }

    /// The stored views.
    pub closed spec fn all(&self) -> Seq<View> {
        self.views@
    }

    /// An empty store.
    pub fn new() -> (r: ViewStore)
        ensures
            forall|id: ViewID| #[trigger] r.view_for(id) is None,
            forall|n: Seq<char>| #[trigger] r.id_for_name(n) is None,
            r.all() == Seq::<View>::empty(),
    {
        let r = ViewStore { views: Vec::new(), names: Vec::new() };
        assert(view_ids(r.views@) =~= Seq::<ViewID>::empty());
        assert(entry_names(r.names@) =~= Seq::<Seq<char>>::empty());
        r
    }

    fn position_of(&self, id: ViewID) -> (r: Option<usize>)
        ensures
            match first_key_pos(view_ids(self.views@), id) {
                Some(i) => r == Some(i as usize),
                None => r is None,
            },
            r matches Some(i) ==> is_first_key(view_ids(self.views@), id, i as int),
            r is None ==> forall|j: int| 0 <= j < self.views@.len() ==> view_ids(self.views@)[j] != id,
    {
        proof {
            lemma_first_pos(view_ids(self.views@), id);
        }
        let ghost keys = view_ids(self.views@);
        let mut i: usize = 0;
        while i < self.views.len()
            invariant
                i <= self.views@.len(),
                keys == view_ids(self.views@),
                forall|j: int| 0 <= j < i ==> #[trigger] keys[j] != id,
            decreases self.views@.len() - i,
        {
            if self.views[i].id == id {
                proof {
                    assert(is_first_key(keys, id, i as int));
                    lemma_first_key(keys, id, i as int);
                }
                return Some(i);
            }
            i = i + 1;
        }
        None
    }

    fn name_position(&self, name: &str) -> (r: Option<usize>)
        ensures
            match first_key_pos(entry_names(self.names@), name@) {
                Some(i) => r == Some(i as usize),
                None => r is None,
            },
            r matches Some(i) ==> is_first_key(entry_names(self.names@), name@, i as int),
            r is None ==> forall|j: int| 0 <= j < self.names@.len() ==> entry_names(self.names@)[j] != name@,
    {
        proof {
            lemma_first_pos(entry_names(self.names@), name@);
        }
        let ghost keys = entry_names(self.names@);
        let mut i: usize = 0;
        while i < self.names.len()
            invariant
                i <= self.names@.len(),
                keys == entry_names(self.names@),
                forall|j: int| 0 <= j < i ==> #[trigger] keys[j] != name@,
            decreases self.names@.len() - i,
        {
            if str_eq(self.names[i].0.as_str(), name) {
                proof {
                    assert(is_first_key(keys, name@, i as int));
                    lemma_first_key(keys, name@, i as int);
                }
                return Some(i);
            }
            i = i + 1;
        }
        None
    }

    /// Store a view, replacing the one with the same identifier; refused
    /// (`InvalidViewQuery`) when its name is registered for another view.
    pub fn store(&mut self, view: View) -> (r: Result<(), LatticeError>)
        ensures
            if old(self).id_for_name(view.name@) matches Some(other) && other != view.id {
                r matches Err(LatticeError::InvalidViewQuery(m)) && m@ == "View with name "@ + seq!['\u{27}']
                    + view.name@ + seq!['\u{27}'] + " already exists"@ && final(self).view_for(view.id) == old(
                    self,
                ).view_for(view.id)
            } else {
                    &&& r is Ok
                    &&& final(self).view_for(view.id) == Some(view)
                    &&& final(self).id_for_name(view.name@) == Some(view.id)
                    &&& forall|o: ViewID| o != view.id ==> #[trigger] final(self).view_for(o) == old(self).view_for(o)
                    &&& forall|n: Seq<char>| n != view.name@ ==> #[trigger] final(self).id_for_name(n) == old(
                        self,
                    ).id_for_name(n)
            },
    {
        proof {
            use_type_invariant(&*self);
        }
        match self.name_position(view.name.as_str()) {
            Some(i) => {
                if self.names[i].1 != view.id {
                    let mut m = string_of("View with name ");
                    push_char(&mut m, '\u{27}');
                    m.append(view.name.as_str());
                    push_char(&mut m, '\u{27}');
                    m.append(" already exists");
                    proof {
                        reveal_strlit("View with name ");
                        reveal_strlit(" already exists");
                    }
                    assert(m@ =~= "View with name "@ + seq!['\u{27}'] + view.name@ + seq!['\u{27}'] + " already exists"@);
                    return Err(LatticeError::InvalidViewQuery(m));
                }
            },
            None => {
                let ghost before = self.names@;
                let name = view.name.clone();
                let mut names = Vec::new();
                std::mem::swap(&mut names, &mut self.names);
                names.push((name, view.id));
                proof {
                    let keys = entry_names(before);
                    assert(entry_names(names@) =~= keys.push(view.name@));
                    assert forall|j: int| 0 <= j < keys.len() implies keys[j] != view.name@ by {
                        if keys[j] == view.name@ {
                            lemma_exists_first(keys, view.name@, j);
                        }
                    }
                }
                self.names = names;
                proof {
                    let keys = entry_names(before);
                    assert(entry_names(self.names@) =~= keys.push(view.name@));
                    assert(is_first_key(keys.push(view.name@), view.name@, keys.len() as int));
                    lemma_first_key(keys.push(view.name@), view.name@, keys.len() as int);
                    assert forall|n: Seq<char>| n != view.name@ implies #[trigger] name_in(self.names@, n) == name_in(old(self).names@, n) by {
                        lemma_first_pos(keys, n);
                        lemma_first_key_push(keys, view.name@, n);
                        if let Some(p) = first_key_pos(keys, n) {
                            assert(self.names@[p] == before[p]);
                        }
                    }
                }
            },
        }
        let ghost vbefore = self.views@;
        let ghost names_now = self.names@;
        match self.position_of(view.id) {
            Some(i) => {
                let mut views = Vec::new();
                std::mem::swap(&mut views, &mut self.views);
                views.set(i, view);
                proof {
                    assert(view_ids(vbefore)[i as int] == view.id);
                    assert(view_ids(views@) =~= view_ids(vbefore));
                }
                self.views = views;
                proof {
                    let keys = view_ids(vbefore);
                    assert(view_ids(self.views@) =~= keys);
                    lemma_first_key(keys, view.id, i as int);
                    assert forall|o: ViewID| o != view.id implies #[trigger] view_in(self.views@, o) == view_in(old(self).views@, o) by {
                        lemma_first_pos(keys, o);
                        if let Some(p) = first_key_pos(keys, o) {
                            assert(p != i);
                        }
                    }
                }
            },
            None => {
                let mut views = Vec::new();
                std::mem::swap(&mut views, &mut self.views);
                views.push(view);
                proof {
                    let keys = view_ids(vbefore);
                    assert(view_ids(views@) =~= keys.push(view.id));
                    assert forall|j: int| 0 <= j < keys.len() implies keys[j] != view.id by {
                        if keys[j] == view.id {
                            lemma_exists_first(keys, view.id, j);
                        }
                    }
                }
                self.views = views;
                proof {
                    let keys = view_ids(vbefore);
                    assert(view_ids(self.views@) =~= keys.push(view.id));
                    assert(is_first_key(keys.push(view.id), view.id, keys.len() as int));
                    lemma_first_key(keys.push(view.id), view.id, keys.len() as int);
                    assert forall|o: ViewID| o != view.id implies #[trigger] view_in(self.views@, o) == view_in(old(self).views@, o) by {
                        lemma_first_pos(keys, o);
                        lemma_first_key_push(keys, view.id, o);
                        if let Some(p) = first_key_pos(keys, o) {
                            assert(self.views@[p] == vbefore[p]);
                        }
                    }
                }
            },
        }
        Ok(())
    }

    /// The view with an identifier; `ViewNotFound` (named by the UUID)
    /// when there is none.
    pub fn get(&self, id: &ViewID) -> (r: Result<&View, LatticeError>)
        ensures
            match self.view_for(*id) {
                Some(v) => r matches Ok(x) && *x == v,
                None => r matches Err(LatticeError::ViewNotFound { name }) && name@ == uuid_text(id.0),
            },
    {
        match self.position_of(*id) {
            Some(i) => Ok(&self.views[i]),
            None => Err(LatticeError::ViewNotFound { name: id.to_string() }),
        }
    }

    /// The view registered under a name; `ViewNotFound` when the name is
    /// not registered (named by the name) or its view is gone (named by
    /// the UUID).
    pub fn get_by_name(&self, name: &str) -> (r: Result<&View, LatticeError>)
        ensures
            match self.id_for_name(name@) {
                None => r matches Err(LatticeError::ViewNotFound { name: n }) && n@ == name@,
                Some(id) => match self.view_for(id) {
                    Some(v) => r matches Ok(x) && *x == v,
                    None => r matches Err(LatticeError::ViewNotFound { name: n }) && n@ == uuid_text(id.0),
                },
            },
    {
        match self.name_position(name) {
            None => Err(LatticeError::ViewNotFound { name: string_of(name) }),
            Some(i) => {
                let id = self.names[i].1;
                self.get(&id)
            },
        }
    }

    /// Delete a view and the registration of its name.
    pub fn delete(&mut self, id: &ViewID) -> (r: Result<(), LatticeError>)
        ensures
            r is Ok,
            final(self).view_for(*id) is None,
            forall|o: ViewID| o != *id ==> #[trigger] final(self).view_for(o) == old(self).view_for(o),
            match old(self).view_for(*id) {
                Some(v) => final(self).id_for_name(v.name@) is None && forall|n: Seq<char>|
                    n != v.name@ ==> #[trigger] final(self).id_for_name(n) == old(self).id_for_name(n),
                None => forall|n: Seq<char>| #[trigger] final(self).id_for_name(n) == old(self).id_for_name(n),
            },
    {
        proof {
            use_type_invariant(&*self);
        }
        match self.position_of(*id) {
            None => {
                Ok(())
            },
            Some(i) => {
                let ghost vbefore = self.views@;
                let mut views = Vec::new();
                std::mem::swap(&mut views, &mut self.views);
                let removed = views.remove(i);
                proof {
                    let keys = view_ids(vbefore);
                    assert(view_ids(views@) =~= keys.remove(i as int));
                    assert forall|a: int, b: int| 0 <= a < b < views@.len() implies view_ids(views@)[a] != view_ids(views@)[b] by {
                        let a2 = if a < i { a } else { a + 1 };
                        let b2 = if b < i { b } else { b + 1 };
                        assert(view_ids(views@)[a] == keys[a2]);
                        assert(view_ids(views@)[b] == keys[b2]);
                    }
                }
                self.views = views;
                proof {
                    let keys = view_ids(vbefore);
                    let nk = view_ids(self.views@);
                    assert(nk =~= keys.remove(i as int));
                    assert forall|j: int| 0 <= j < nk.len() implies #[trigger] nk[j] != *id by {
                        if j < i {
                            assert(nk[j] == keys[j]);
                        } else {
                            assert(nk[j] == keys[j + 1]);
                        }
                    }
                    assert forall|o: ViewID| o != *id implies #[trigger] view_in(self.views@, o) == view_in(old(self).views@, o) by {
                        lemma_first_pos(keys, o);
                        if let Some(p) = first_key_pos(keys, o) {
                            let q = if p < i { p } else { p - 1 };
                            assert(p != i);
                            assert(nk[q] == o);
                            assert(self.views@[q] == vbefore[p]);
                            assert(is_first_key(nk, o, q)) by {
                                assert forall|j: int| 0 <= j < q implies nk[j] != o by {
                                    if j < i {
                                        assert(nk[j] == keys[j]);
                                    } else {
                                        assert(nk[j] == keys[j + 1]);
                                    }
                                }
                            }
                            lemma_first_key(nk, o, q);
                        } else {
                            assert forall|j: int| 0 <= j < nk.len() implies nk[j] != o by {
                                if j < i {
                                    assert(nk[j] == keys[j]);
                                } else {
                                    assert(nk[j] == keys[j + 1]);
                                }
                                if nk[j] == o {
                                    let jj = if j < i { j } else { j + 1 };
                                    lemma_exists_first(keys, o, jj);
                                }
                            }
                        }
                    }
                }
                match self.name_position(removed.name.as_str()) {
                    None => {},
                    Some(k) => {
                        let ghost nbefore = self.names@;
                        let mut names = Vec::new();
                        std::mem::swap(&mut names, &mut self.names);
                        names.remove(k);
                        proof {
                            let keys = entry_names(nbefore);
                            assert(entry_names(names@) =~= keys.remove(k as int));
                            assert forall|a: int, b: int| 0 <= a < b < names@.len() implies entry_names(names@)[a] != entry_names(names@)[b] by {
                                let a2 = if a < k { a } else { a + 1 };
                                let b2 = if b < k { b } else { b + 1 };
                                assert(entry_names(names@)[a] == keys[a2]);
                                assert(entry_names(names@)[b] == keys[b2]);
                            }
                        }
                        self.names = names;
                        proof {
                            let keys = entry_names(nbefore);
                            let nk = entry_names(self.names@);
                            assert(nk =~= keys.remove(k as int));
                            assert forall|n: Seq<char>| n != removed.name@ implies #[trigger] name_in(self.names@, n) == name_in(old(self).names@, n) by {
                                lemma_first_pos(keys, n);
                                if let Some(p) = first_key_pos(keys, n) {
                                    let q = if p < k { p } else { p - 1 };
                                    assert(p != k);
                                    assert(nk[q] == n);
                                    assert(is_first_key(nk, n, q)) by {
                                        assert forall|j: int| 0 <= j < q implies nk[j] != n by {
                                            if j < k {
                                                assert(nk[j] == keys[j]);
                                            } else {
                                                assert(nk[j] == keys[j + 1]);
                                            }
                                        }
                                    }
                                    lemma_first_key(nk, n, q);
                                } else {
                                    assert forall|j: int| 0 <= j < nk.len() implies nk[j] != n by {
                                        if nk[j] == n {
                                            let jj = if j < k { j } else { j + 1 };
                                            assert(keys[jj] == n);
                                            lemma_exists_first(keys, n, jj);
                                        }
                                    }
                                }
                            }
                            assert forall|j: int| 0 <= j < nk.len() implies nk[j] != removed.name@ by {
                                if j < k {
                                    assert(nk[j] == keys[j]);
                                } else {
                                    assert(nk[j] == keys[j + 1]);
                                }
                            }
                        }
                    },
                }
                Ok(())
            },
        }
    }

    /// All stored views.
    pub fn list(&self) -> (r: &[View])
        ensures
            r@ == self.all(),
    {
        self.views.as_slice()
    }

    /// Whether a name is registered.
    pub fn has_name(&self, name: &str) -> (r: bool)
        ensures
            r == self.id_for_name(name@) is Some,
    {
        self.name_position(name).is_some()
    }
}


/// Why a parent chain cannot be followed.
pub enum ChainFailure {
    /// More parents than the depth bound allows.
    TooDeep,
    /// A view is met twice.
    Circular,
    /// A parent view is not stored.
    Missing(ViewID),
}

/// The queries met walking up a parent chain from `current`, after those
/// in `acc`: each parent's query is added until a view has no parent.
/// Refused when `max` parents were already taken, when a view is met
/// again, or when a parent is not stored.
pub open spec fn parent_walk(
    store: ViewStore,
    current: Option<ViewID>,
    visited: Seq<ViewID>,
    depth: nat,
    max: nat,
    acc: Seq<Seq<char>>,
) -> Result<Seq<Seq<char>>, ChainFailure>
    decreases max - depth,
{
    match current {
        None => Ok(acc),
        Some(pid) => if depth >= max {
            Err(ChainFailure::TooDeep)
        } else if visited.contains(pid) {
            Err(ChainFailure::Circular)
        } else {
            match store.view_for(pid) {
                None => Err(ChainFailure::Missing(pid)),
                Some(p) => parent_walk(store, p.parent_id, visited.push(pid), depth + 1, max, acc.push(p.query@)),
            }
        },
    }
}

/// The effective query of a view: its query and its ancestors', outermost
/// first, each in parentheses, joined by the operator.
pub open spec fn effective_query_text(store: ViewStore, view: View, options: EffectiveQueryOptions) -> Result<
    Seq<char>,
    ChainFailure,
> {
    match parent_walk(store, view.parent_id, seq![view.id], 0, options.max_parent_depth as nat, seq![view.query@]) {
        Ok(qs) => Ok(joined_queries(qs.reverse(), options.join_operator)),
        Err(f) => Err(f),
    }
}

/// The error a chain failure is reported as.
pub open spec fn chain_error(e: LatticeError, f: ChainFailure, max: u32) -> bool {
    match f {
        ChainFailure::TooDeep => e matches LatticeError::InvalidViewQuery(m) && m@
            == "Parent chain depth exceeds maximum of "@ + decimal_chars(max as nat) + " levels"@,
        ChainFailure::Circular => e matches LatticeError::InvalidViewQuery(m) && m@
            == "Circular reference detected in parent chain"@,
        ChainFailure::Missing(id) => e matches LatticeError::ViewNotFound { name } && name@ == uuid_text(id.0),
    }
}

/// Whether an identifier is in a list.
fn contains_view_id(v: &Vec<ViewID>, id: ViewID) -> (r: bool)
    ensures
        r == v@.contains(id),
{
    let mut i: usize = 0;
    while i < v.len()
        invariant
            i <= v@.len(),
            forall|j: int| 0 <= j < i ==> v@[j] != id,
        decreases v@.len() - i,
    {
        if v[i] == id {
            return true;
        }
        i = i + 1;
    }
    false
}

/// The effective query of a view with explicit options (see
/// `effective_query_text`).
pub fn effective_query_with_options(store: &ViewStore, view: &View, options: EffectiveQueryOptions) -> (r: Result<
    String,
    LatticeError,
>)
    ensures
        match effective_query_text(*store, *view, options) {
            Ok(t) => r matches Ok(s) && s@ == t,
            Err(f) => r matches Err(e) && chain_error(e, f, options.max_parent_depth),
        },
{
    let ghost max = options.max_parent_depth as nat;
    let mut queries: Vec<String> = Vec::new();
    queries.push(view.query.clone());
    let mut visited: Vec<ViewID> = Vec::new();
    visited.push(view.id);
    let mut current = view.parent_id;
    let mut depth: u32 = 0;
    assert(string_views(queries@) =~= seq![view.query@]);
    assert(visited@ =~= seq![view.id]);
    loop
        invariant
            depth <= options.max_parent_depth,
            max == options.max_parent_depth as nat,
            parent_walk(*store, view.parent_id, seq![view.id], 0, max, seq![view.query@]) == parent_walk(
                *store,
                current,
                visited@,
                depth as nat,
                max,
                string_views(queries@),
            ),
        ensures
            current is None,
            parent_walk(*store, view.parent_id, seq![view.id], 0, max, seq![view.query@]) == Ok::<
                Seq<Seq<char>>,
                ChainFailure,
            >(string_views(queries@)),
        decreases options.max_parent_depth - depth,
    {
        let pid = match current {
            None => break,
            Some(pid) => pid,
        };
        if depth >= options.max_parent_depth {
            let mut m = string_of("Parent chain depth exceeds maximum of ");
            push_decimal(&mut m, options.max_parent_depth as u64);
            m.append(" levels");
            return Err(LatticeError::InvalidViewQuery(m));
        }
        if contains_view_id(&visited, pid) {
            return Err(LatticeError::InvalidViewQuery(string_of("Circular reference detected in parent chain")));
        }
        let parent = match store.get(&pid) {
            Ok(p) => p,
            Err(e) => return Err(e),
        };
        let ghost before = string_views(queries@);
        queries.push(parent.query.clone());
        assert(string_views(queries@) =~= before.push(parent.query@));
        visited.push(pid);
        current = parent.parent_id;
        depth = depth + 1;
    }
    let ghost qs = string_views(queries@);
    let mut reversed: Vec<String> = Vec::new();
    let mut k: usize = queries.len();
    while k > 0
        invariant
            k <= queries@.len(),
            qs == string_views(queries@),
            string_views(reversed@) == qs.subrange(k as int, qs.len() as int).reverse(),
        decreases k,
    {
        k = k - 1;
        let ghost prev = string_views(reversed@);
        reversed.push(queries[k].clone());
        assert(string_views(reversed@) =~= prev.push(qs[k as int]));
        assert(qs.subrange(k as int, qs.len() as int).reverse() =~= qs.subrange(k + 1, qs.len() as int).reverse().push(
            qs[k as int],
        ));
    }
    assert(qs.subrange(0, qs.len() as int) =~= qs);
    assert(string_views(reversed@) =~= reversed@.map_values(|q: String| q@));
    Ok(join_queries(&reversed, options.join_operator))
}

/// The effective query of a view, joined by `AND` over at most 16
/// parents.
pub fn effective_query(store: &ViewStore, view: &View) -> (r: Result<String, LatticeError>)
    ensures
        match effective_query_text(
            *store,
            *view,
            EffectiveQueryOptions { max_parent_depth: DEFAULT_MAX_PARENT_DEPTH, join_operator: ViewJoinOperator::And },
        ) {
            Ok(t) => r matches Ok(s) && s@ == t,
            Err(f) => r matches Err(e) && chain_error(e, f, DEFAULT_MAX_PARENT_DEPTH),
        },
{
    effective_query_with_options(store, view, EffectiveQueryOptions::default())
}

} // verus!
