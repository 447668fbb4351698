//! Settings of dynamic (query-backed) views.

use vstd::prelude::*;
use crate::error::LatticeError;
use crate::model::object::ObjectID;
use crate::model::state::State;
use crate::query::ast::Query;
use crate::query::catalog::{failure_matches, Catalog, LookupFailure};
use crate::query::evaluator::{execute_outcome, list_result, QueryEvaluator};
use crate::query::parser::{parse, parse_spec};
use crate::security::{trust_level, trust_level_of};
use crate::text::string_of;

verus! {

/// How a dynamic view is evaluated.
#[derive(Debug, Clone, Copy, PartialEq, Eq, Structural)]
pub struct ViewConfig {
    /// Most results returned.
    pub max_results: Option<usize>,
    /// How long results stay cached, in seconds (0: no caching).
    pub cache_ttl_secs: u64,
    /// Whether archived objects are included.
    pub include_archived: bool,
    /// Least trust level of the objects in the view.
    pub min_trust_level: Option<u8>,
}

impl Default for ViewConfig {
    fn default() -> (r: ViewConfig)
        ensures
            r == (ViewConfig { max_results: None, cache_ttl_secs: 60, include_archived: false, min_trust_level: None }),
    {
        ViewConfig { max_results: None, cache_ttl_secs: 60, include_archived: false, min_trust_level: None }
    }
}

impl ViewConfig {
    /// The defaults, with no result limit.
    pub fn unlimited() -> (r: ViewConfig)
        ensures
            r == (ViewConfig { max_results: None, cache_ttl_secs: 60, include_archived: false, min_trust_level: None }),
    {
        ViewConfig { max_results: None, ..ViewConfig::default() }
    }

    /// Limit the number of results.
    pub fn with_max_results(self, max: usize) -> (r: ViewConfig)
        ensures
            r == (ViewConfig { max_results: Some(max), ..self }),
    {
        ViewConfig { max_results: Some(max), ..self }
    }

    /// Set the cache lifetime.
    pub fn with_cache_ttl(self, secs: u64) -> (r: ViewConfig)
        ensures
            r == (ViewConfig { cache_ttl_secs: secs, ..self }),
    {
        ViewConfig { cache_ttl_secs: secs, ..self }
    }

    /// Include archived objects.
    pub fn include_archived(self) -> (r: ViewConfig)
        ensures
            r == (ViewConfig { include_archived: true, ..self }),
    {
        ViewConfig { include_archived: true, ..self }
    }

    /// Require a least trust level.
    pub fn with_min_trust(self, level: u8) -> (r: ViewConfig)
        ensures
            r == (ViewConfig { min_trust_level: Some(level), ..self }),
    {
        ViewConfig { min_trust_level: Some(level), ..self }
    }
}


/// Whether the settings keep an object: archived ones only when included
/// (an object whose current version is missing counts as not kept), and,
/// with a least trust level, only objects whose trust reaches it.
pub open spec fn kept_by_config(cat: Catalog, config: ViewConfig, id: ObjectID) -> bool {
    &&& (config.include_archived || match cat.object(id) {
        Some(o) => match cat.version(o.current_version) {
            Some(v) => v.state != State::Archived,
            None => false,
        },
        None => false,
    })
    &&& match config.min_trust_level {
        None => true,
        Some(m) => match cat.object(id) {
            Some(o) => trust_level_of(o.tags@) >= m,
            None => false,
        },
    }
}

/// The results the settings keep, cut to the most results allowed.
pub open spec fn config_filtered(cat: Catalog, config: ViewConfig, ids: Seq<ObjectID>) -> Seq<ObjectID> {
    let kept = ids.filter(|id: ObjectID| kept_by_config(cat, config, id));
    match config.max_results {
        Some(m) => if kept.len() > m {
            kept.take(m as int)
        } else {
            kept
        },
        None => kept,
    }
}

/// Cached results and when (milliseconds) they were cached.
struct ViewCache {
    results: Vec<ObjectID>,
    cached_at: u64,
}

/// A query evaluated on demand over a catalog, its results cached for a
/// while.
pub struct DynamicView<'a> {
    query: Query,
    query_string: String,
    config: ViewConfig,
    store: &'a Catalog,
    cache: Option<ViewCache>,
}

/// Whether a cache taken at `cached_at` is still fresh at `now` (both in
/// milliseconds) for a lifetime in seconds: the lifetime is not zero and
/// less time than it has passed.
pub open spec fn cache_fresh(cached_at: u64, now: u64, ttl_secs: u64) -> bool {
    ttl_secs > 0 && (if now >= cached_at { now - cached_at } else { 0 }) < ttl_secs * 1000
}

/// The wall clock in milliseconds since the Unix epoch (0 before the
/// epoch). Nothing is claimed of the value.
#[verifier::external_body]
fn clock_millis() -> (r: u64) {
    match std::time::SystemTime::now().duration_since(std::time::UNIX_EPOCH) {
        Ok(d) => d.as_millis() as u64,
        Err(_) => 0,
    }
}

/// Whether the cache is fresh.
fn fresh(cached_at: u64, now: u64, ttl_secs: u64) -> (r: bool)
    ensures
        r == cache_fresh(cached_at, now, ttl_secs),
{
    if ttl_secs == 0 {
        return false;
    }
    let elapsed: u64 = if now >= cached_at { now - cached_at } else { 0 };
    (elapsed as u128) < (ttl_secs as u128) * 1000
}

impl<'a> DynamicView<'a> {
    /// The catalog the view reads.
    pub closed spec fn catalog(&self) -> Catalog {
        *self.store
    }

    /// The view's settings.
    pub closed spec fn settings(&self) -> ViewConfig {
        self.config
    }

    /// The cached results and when they were cached, if any.
    pub closed spec fn cached(&self) -> Option<(Seq<ObjectID>, u64)> {
        match self.cache {
            Some(c) => Some((c.results@, c.cached_at)),
            None => None,
        }
    }

    /// The query text.
    pub closed spec fn text(&self) -> Seq<char> {
        self.query_string@
    }

    /// The parsed query.
    pub closed spec fn parsed(&self) -> crate::query::ast::QueryV {
        self.query@
    }

    /// A view of a query over a catalog, with the default settings and no
    /// cache; the query's parse error when it does not parse.
    pub fn new(query: &str, store: &'a Catalog) -> (r: Result<DynamicView<'a>, LatticeError>)
        ensures
            match parse_spec(query@) {
                Ok(q) => r matches Ok(v) && v.parsed() == q && v.text() == query@ && v.catalog() == *store
                    && v.settings() == (ViewConfig {
                    max_results: None,
                    cache_ttl_secs: 60,
                    include_archived: false,
                    min_trust_level: None,
                }) && v.cached() is None,
                Err(_) => r is Err,
            },
    {
        let parsed = match parse(query) {
            Ok(q) => q,
            Err(e) => return Err(e),
        };
        Ok(DynamicView { query: parsed, query_string: string_of(query), config: ViewConfig::default(), store, cache: None })
    }

    /// The view with other settings.
    pub fn with_config(self, config: ViewConfig) -> (r: DynamicView<'a>)
        ensures
            r.settings() == config,
            r.parsed() == self.parsed() && r.text() == self.text() && r.catalog() == self.catalog(),
            r.cached() == self.cached(),
    {
        DynamicView { config, ..self }
    }

    /// The query text.
    pub fn query_string(&self) -> (r: &str)
        ensures
            r@ == self.text(),
    {
        self.query_string.as_str()
    }

    /// The results the settings keep (see `config_filtered`).
    fn apply_config_filters(&self, results: Vec<ObjectID>) -> (r: Vec<ObjectID>)
        ensures
            r@ == config_filtered(self.catalog(), self.settings(), results@),
    {
        let ghost cat = *self.store;
        let ghost cfg = self.config;
        let mut kept: Vec<ObjectID> = Vec::new();
        proof {
            reveal(Seq::filter);
            assert(results@.take(0) =~= Seq::<ObjectID>::empty());
        }
        let mut i: usize = 0;
        while i < results.len()
            invariant
                i <= results@.len(),
                cat == *self.store,
                cfg == self.config,
                kept@ == results@.take(i as int).filter(|id: ObjectID| kept_by_config(cat, cfg, id)),
            decreases results@.len() - i,
        {
            let id = results[i];
            let keep = self.keeps(&id);
            proof {
                reveal(Seq::filter);
            }
            assert(results@.take(i + 1).drop_last() =~= results@.take(i as int));
            assert(results@.take(i + 1).last() == id);
            if keep {
                kept.push(id);
            }
            i = i + 1;
        }
        assert(results@.take(results@.len() as int) =~= results@);
        match self.config.max_results {
            Some(m) => {
                if kept.len() > m {
                    kept.truncate(m);
                }
            },
            None => {},
        }
        kept
    }

    /// Whether the settings keep an object (see `kept_by_config`).
    fn keeps(&self, id: &ObjectID) -> (r: bool)
        ensures
            r == kept_by_config(self.catalog(), self.settings(), *id),
    {
        if !self.config.include_archived {
            let live = match self.store.load_object(id) {
                Ok(o) => match self.store.load_version(&o.current_version) {
                    Ok(v) => v.state != State::Archived,
                    Err(_) => false,
                },
                Err(_) => false,
            };
            if !live {
                return false;
            }
        }
        match self.config.min_trust_level {
            None => true,
            Some(m) => match self.store.load_object(id) {
                Ok(o) => trust_level(o.tags.as_slice()) >= m,
                Err(_) => false,
            },
        }
    }

    /// What evaluating at `now_ms` (milliseconds, for the cache) and `now`
    /// (microseconds, for time predicates) does, from this view to `post`,
    /// returning `r`: the cached results while they are fresh; else the
    /// query's results kept by the settings, which are then cached. The
    /// catalog, settings and query stay.
    pub open spec fn evaluated(self, post: DynamicView<'a>, now_ms: u64, now: i64, r: Result<Vec<ObjectID>, LatticeError>) -> bool {
        &&& post.catalog() == self.catalog()
        &&& post.settings() == self.settings()
        &&& post.parsed() == self.parsed()
        &&& if self.cached() matches Some((res, at)) && cache_fresh(at, now_ms, self.settings().cache_ttl_secs) {
            r matches Ok(v) && v@ == self.cached().unwrap().0 && post.cached() == self.cached()
        } else {
            exists|o: Result<Seq<ObjectID>, LookupFailure>|
                #[trigger] execute_outcome(self.catalog(), self.parsed(), now, o) && match o {
                    Ok(ids) => r matches Ok(v) && v@ == config_filtered(self.catalog(), self.settings(), ids)
                        && post.cached() == Some((v@, now_ms)),
                    Err(f) => r matches Err(e) && failure_matches(e, f) && post.cached() == self.cached(),
                }
        }
    }

    /// Evaluate at `now_ms` (milliseconds, for the cache) and `now`
    /// (microseconds, for time predicates): the cached results while they
    /// are fresh; else the query's results kept by the settings, which are
    /// cached.
    pub fn evaluate_at(&mut self, now_ms: u64, now: i64) -> (r: Result<Vec<ObjectID>, LatticeError>)
        ensures
            old(self).evaluated(*final(self), now_ms, now, r),
    {
        match &self.cache {
            Some(c) => {
                if fresh(c.cached_at, now_ms, self.config.cache_ttl_secs) {
                    let out = copy_ids(&c.results);
                    return Ok(out);
                }
            },
            None => {},
        }
        let evaluator = QueryEvaluator::new(self.store);
        let results = evaluator.execute_at(&self.query, now);
        let ghost cat = *self.store;
        proof {
            let o = choose|o: Result<Seq<ObjectID>, LookupFailure>|
                #[trigger] execute_outcome(evaluator.catalog(), self.query@, now, o) && list_result(results, o);
            assert(execute_outcome(old(self).catalog(), old(self).parsed(), now, o));
        }
        match results {
            Err(e) => Err(e),
            Ok(ids) => {
                let kept = self.apply_config_filters(ids);
                let cached = copy_ids(&kept);
                self.cache = Some(ViewCache { results: cached, cached_at: now_ms });
                Ok(kept)
            },
        }
    }

    /// Evaluate with the clocks' current readings (see `evaluate_at`).
    pub fn evaluate(&mut self) -> (r: Result<Vec<ObjectID>, LatticeError>)
        ensures
            exists|now_ms: u64, now: i64| #[trigger] old(self).evaluated(*final(self), now_ms, now, r),
    {
        let now_ms = clock_millis();
        let now = crate::model::tag::timestamp_now();
        self.evaluate_at(now_ms, now)
    }

    /// Drop the cache, so the next evaluation runs the query.
    pub fn invalidate_cache(&mut self)
        ensures
            final(self).cached() is None,
            final(self).catalog() == old(self).catalog(),
            final(self).settings() == old(self).settings(),
            final(self).parsed() == old(self).parsed(),
    {
        self.cache = None;
    }

    /// Whether a cache is held and is fresh at `now_ms`.
    pub open spec fn fresh_at(&self, now_ms: u64) -> bool {
        self.cached() matches Some((_, at)) && cache_fresh(at, now_ms, self.settings().cache_ttl_secs)
    }

    /// Whether the cache is fresh at `now_ms`.
    pub fn is_cached_at(&self, now_ms: u64) -> (r: bool)
        ensures
            r == (self.cached() matches Some((_, at)) && cache_fresh(at, now_ms, self.settings().cache_ttl_secs)),
    {
        match &self.cache {
            Some(c) => fresh(c.cached_at, now_ms, self.config.cache_ttl_secs),
            None => false,
        }
    }

    /// Whether the cache is fresh now.
    pub fn is_cached(&self) -> (r: bool)
        ensures
            exists|now_ms: u64| r == #[trigger] self.fresh_at(now_ms),
    {
        let now_ms = clock_millis();
        let r = self.is_cached_at(now_ms);
        assert(r == self.fresh_at(now_ms));
        r
    }

    /// How many results are cached, if any.
    pub fn cached_count(&self) -> (r: Option<usize>)
        ensures
            match self.cached() {
                Some((res, _)) => r == Some(res.len() as usize),
                None => r is None,
            },
    {
        match &self.cache {
            Some(c) => Some(c.results.len()),
            None => None,
        }
    }
}

/// A copy of a list of objects.
fn copy_ids(v: &Vec<ObjectID>) -> (r: Vec<ObjectID>)
    ensures
        r@ == v@,
{
    let mut out: Vec<ObjectID> = Vec::new();
    let mut i: usize = 0;
    while i < v.len()
        invariant
            i <= v@.len(),
            out@ == v@.take(i as int),
        decreases v@.len() - i,
    {
        out.push(v[i]);
        assert(out@ =~= v@.take(i + 1));
        i = i + 1;
    }
    assert(v@.take(v@.len() as int) =~= v@);
    out
}

} // verus!
