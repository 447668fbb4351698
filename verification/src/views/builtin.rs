//! Built-in views: recent objects, projects, drafts, review, approved, all.

use vstd::prelude::*;
use crate::text::{starts_with, str_eq, string_of, to_lowercase, unicode_lowercase};
use crate::error::LatticeError;
use crate::model::object::ObjectID;
use crate::query::catalog::{Catalog, LookupFailure};
use crate::query::evaluator::{execute_outcome, expr_set, list_result, QueryEvaluator};
use crate::query::parser::{parse, parse_spec};

verus! {

/// Languages of the built-in view names and descriptions.
#[derive(Debug, Clone, Copy, PartialEq, Eq, Structural)]
pub enum Locale {
    English,
    German,
}

/// `sys_locale::get_locale()`: the system's locale tag. It depends on the
/// environment, so nothing is claimed of it.
#[verifier::external_body]
fn system_locale_tag() -> (r: Option<String>) {
    sys_locale::get_locale()
}

/// The locale a system locale tag selects: English for tags starting with
/// `en`, German for any other tag and when there is none.
pub open spec fn locale_for_tag(tag: Option<Seq<char>>) -> Locale {
    match tag {
        Some(t) => if "en"@.is_prefix_of(t) { Locale::English } else { Locale::German },
        None => Locale::German,
    }
}

impl Locale {
    /// The locale for a system locale tag (see `locale_for_tag`).
    pub fn for_tag(tag: Option<&str>) -> (r: Locale)
        ensures
            r == locale_for_tag(match tag {
                Some(t) => Some(t@),
                None => None,
            }),
    {
        match tag {
            Some(t) => if starts_with(t, "en") { Locale::English } else { Locale::German },
            None => Locale::German,
        }
    }

    /// The locale of the operating system, German when it is not English.
    pub fn from_system() -> (r: Locale)
        ensures
            exists|tag: Option<Seq<char>>| r == locale_for_tag(tag),
    {
        match system_locale_tag() {
            Some(t) => {
                let r = Locale::for_tag(Some(t.as_str()));
                assert(r == locale_for_tag(Some(t@)));
                r
            },
            None => {
                assert(Locale::German == locale_for_tag(None));
                Locale::German
            },
        }
    }
}

/// The built-in views.
#[derive(Debug, Clone, Copy, PartialEq, Eq, Structural)]
pub enum BuiltinView {
    /// Objects updated within the last 7 days.
    Recent,
    /// Objects tagged `project`.
    Projects,
    /// Objects in draft state.
    Drafts,
    /// Objects pending review.
    Review,
    /// Approved objects.
    Approved,
    /// All objects.
    All,
}

/// The LQL query of a built-in view.
pub open spec fn builtin_query(v: BuiltinView) -> Seq<char> {
    match v {
        BuiltinView::Recent => "updated within 7d SORT updated DESC LIMIT 100"@,
        BuiltinView::Projects => "tag:project SORT updated DESC"@,
        BuiltinView::Drafts => "state:draft SORT updated DESC"@,
        BuiltinView::Review => "state:review SORT updated DESC"@,
        BuiltinView::Approved => "state:approved SORT updated DESC"@,
        BuiltinView::All => "trust >= 0"@,
    }
}

/// The (English) display name of a built-in view.
pub open spec fn builtin_name(v: BuiltinView) -> Seq<char> {
    match v {
        BuiltinView::Recent => "Recent"@,
        BuiltinView::Projects => "Projects"@,
        BuiltinView::Drafts => "Drafts"@,
        BuiltinView::Review => "Pending Review"@,
        BuiltinView::Approved => "Approved"@,
        BuiltinView::All => "All Objects"@,
    }
}

/// The (English) description of a built-in view.
pub open spec fn builtin_description(v: BuiltinView) -> Seq<char> {
    match v {
        BuiltinView::Recent => "Objects updated within the last 7 days"@,
        BuiltinView::Projects => "Objects tagged as projects"@,
        BuiltinView::Drafts => "Objects in draft state"@,
        BuiltinView::Review => "Objects pending review"@,
        BuiltinView::Approved => "Approved objects"@,
        BuiltinView::All => "All objects in the repository"@,
    }
}

/// The German display name of a built-in view.
pub open spec fn builtin_name_de(v: BuiltinView) -> Seq<char> {
    match v {
        BuiltinView::Recent => "Neueste"@,
        BuiltinView::Projects => "Projekte"@,
        BuiltinView::Drafts => "Entwürfe"@,
        BuiltinView::Review => "Zur Prüfung"@,
        BuiltinView::Approved => "Genehmigt"@,
        BuiltinView::All => "Alle Objekte"@,
    }
}

/// The German description of a built-in view.
pub open spec fn builtin_description_de(v: BuiltinView) -> Seq<char> {
    match v {
        BuiltinView::Recent => "Objekte, die in den letzten 7 Tagen aktualisiert wurden"@,
        BuiltinView::Projects => "Objekte, die als Projekte gekennzeichnet sind"@,
        BuiltinView::Drafts => "Objekte im Entwurfsstadium"@,
        BuiltinView::Review => "Objekte, die auf Prüfung warten"@,
        BuiltinView::Approved => "Genehmigte Objekte"@,
        BuiltinView::All => "Alle Objekte im Repository"@,
    }
}

/// The built-in view an already lowercased name (English or German) denotes.
pub open spec fn builtin_from_lower(n: Seq<char>) -> Option<BuiltinView> {
    if n == "recent"@ || n == "neueste"@ {
        Some(BuiltinView::Recent)
    } else if n == "projects"@ || n == "projekte"@ {
        Some(BuiltinView::Projects)
    } else if n == "drafts"@ || n == "entwürfe"@ {
        Some(BuiltinView::Drafts)
    } else if n == "review"@ || n == "pending review"@ || n == "zur prüfung"@ {
        Some(BuiltinView::Review)
    } else if n == "approved"@ || n == "genehmigt"@ {
        Some(BuiltinView::Approved)
    } else if n == "all"@ || n == "all objects"@ || n == "alle objekte"@ {
        Some(BuiltinView::All)
    } else {
        None
    }
}

/// The built-in views, in order.
pub open spec fn all_builtin_views() -> Seq<BuiltinView> {
    seq![
        BuiltinView::Recent,
        BuiltinView::Projects,
        BuiltinView::Drafts,
        BuiltinView::Review,
        BuiltinView::Approved,
        BuiltinView::All,
    ]
}

impl BuiltinView {
    /// The LQL query of this view.
    pub fn query(&self) -> (r: &'static str)
        ensures
            r@ == builtin_query(*self),
    {
        match self {
            BuiltinView::Recent => "updated within 7d SORT updated DESC LIMIT 100",
            BuiltinView::Projects => "tag:project SORT updated DESC",
            BuiltinView::Drafts => "state:draft SORT updated DESC",
            BuiltinView::Review => "state:review SORT updated DESC",
            BuiltinView::Approved => "state:approved SORT updated DESC",
            BuiltinView::All => "trust >= 0",
        }
    }

    /// The display name.
    pub fn name(&self) -> (r: &'static str)
        ensures
            r@ == builtin_name(*self),
    {
        match self {
            BuiltinView::Recent => "Recent",
            BuiltinView::Projects => "Projects",
            BuiltinView::Drafts => "Drafts",
            BuiltinView::Review => "Pending Review",
            BuiltinView::Approved => "Approved",
            BuiltinView::All => "All Objects",
        }
    }

    /// The description.
    pub fn description(&self) -> (r: &'static str)
        ensures
            r@ == builtin_description(*self),
    {
        match self {
            BuiltinView::Recent => "Objects updated within the last 7 days",
            BuiltinView::Projects => "Objects tagged as projects",
            BuiltinView::Drafts => "Objects in draft state",
            BuiltinView::Review => "Objects pending review",
            BuiltinView::Approved => "Approved objects",
            BuiltinView::All => "All objects in the repository",
        }
    }

    /// The display name in a locale.
    pub fn name_localized(&self, locale: Locale) -> (r: &'static str)
        ensures
            locale == Locale::English ==> r@ == builtin_name(*self),
            locale == Locale::German ==> r@ == builtin_name_de(*self),
    {
        match locale {
            Locale::English => self.name(),
            Locale::German => match self {
                BuiltinView::Recent => "Neueste",
                BuiltinView::Projects => "Projekte",
                BuiltinView::Drafts => "Entwürfe",
                BuiltinView::Review => "Zur Prüfung",
                BuiltinView::Approved => "Genehmigt",
                BuiltinView::All => "Alle Objekte",
            },
        }
    }

    /// The description in a locale.
    pub fn description_localized(&self, locale: Locale) -> (r: &'static str)
        ensures
            locale == Locale::English ==> r@ == builtin_description(*self),
            locale == Locale::German ==> r@ == builtin_description_de(*self),
    {
        match locale {
            Locale::English => self.description(),
            Locale::German => match self {
                BuiltinView::Recent => "Objekte, die in den letzten 7 Tagen aktualisiert wurden",
                BuiltinView::Projects => "Objekte, die als Projekte gekennzeichnet sind",
                BuiltinView::Drafts => "Objekte im Entwurfsstadium",
                BuiltinView::Review => "Objekte, die auf Prüfung warten",
                BuiltinView::Approved => "Genehmigte Objekte",
                BuiltinView::All => "Alle Objekte im Repository",
            },
        }
    }

    /// All built-in views, in order.
    pub fn all() -> (r: Vec<BuiltinView>)
        ensures
            r@ == all_builtin_views(),
    {
        vec![
            BuiltinView::Recent,
            BuiltinView::Projects,
            BuiltinView::Drafts,
            BuiltinView::Review,
            BuiltinView::Approved,
            BuiltinView::All,
        ]
    }

    /// The built-in view with this English or German name, ignoring case.
    pub fn by_name(name: &str) -> (r: Option<BuiltinView>)
        ensures
            r == builtin_from_lower(unicode_lowercase(name@)),
    {
        let lower = to_lowercase(name);
        let n = lower.as_str();
        if str_eq(n, "recent") || str_eq(n, "neueste") {
            Some(BuiltinView::Recent)
        } else if str_eq(n, "projects") || str_eq(n, "projekte") {
            Some(BuiltinView::Projects)
        } else if str_eq(n, "drafts") || str_eq(n, "entwürfe") {
            Some(BuiltinView::Drafts)
        } else if str_eq(n, "review") || str_eq(n, "pending review") || str_eq(n, "zur prüfung") {
            Some(BuiltinView::Review)
        } else if str_eq(n, "approved") || str_eq(n, "genehmigt") {
            Some(BuiltinView::Approved)
        } else if str_eq(n, "all") || str_eq(n, "all objects") || str_eq(n, "alle objekte") {
            Some(BuiltinView::All)
        } else {
            None
        }
    }
}

/// Summary of a view: its kind, name, description and object count.
#[derive(Debug, Clone)]
pub struct ViewSummary {
    pub view: BuiltinView,
    pub name: String,
    pub description: String,
    pub count: usize,
}


/// What evaluating a built-in view at `now` gives: its query's parse
/// error, or the query's results.
pub open spec fn builtin_result(cat: Catalog, v: BuiltinView, now: i64, r: Result<Vec<ObjectID>, LatticeError>) -> bool {
    match parse_spec(builtin_query(v)) {
        Err(_) => r is Err,
        Ok(q) => exists|o: Result<Seq<ObjectID>, LookupFailure>| #[trigger] execute_outcome(cat, q, now, o) && list_result(r, o),
    }
}

/// Whether a built-in view can be evaluated at `now`: its query parses and
/// every object its query looks up is in the catalog.
pub open spec fn builtin_ok(cat: Catalog, v: BuiltinView, now: i64) -> bool {
    match parse_spec(builtin_query(v)) {
        Err(_) => false,
        Ok(q) => expr_set(cat, q.expr, now) is Ok,
    }
}

/// A built-in view's result is `Ok` exactly when the view can be evaluated.
pub proof fn lemma_builtin_ok(cat: Catalog, v: BuiltinView, now: i64, r: Result<Vec<ObjectID>, LatticeError>)
    requires
        builtin_result(cat, v, now, r),
    ensures
        r is Ok <==> builtin_ok(cat, v, now),
{
    match parse_spec(builtin_query(v)) {
        Err(_) => {},
        Ok(q) => {
            let o = choose|o: Result<Seq<ObjectID>, LookupFailure>| #[trigger]
                execute_outcome(cat, q, now, o) && list_result(r, o);
            assert(execute_outcome(cat, q, now, o) && list_result(r, o));
        },
    }
}

/// What counting a built-in view at `now` gives: the length of its result,
/// or its error.
pub open spec fn count_outcome(cat: Catalog, v: BuiltinView, now: i64, r: Result<usize, LatticeError>) -> bool {
    exists|res: Result<Vec<ObjectID>, LatticeError>| #[trigger] builtin_result(cat, v, now, res)
        && match res {
        Ok(l) => r == Ok::<usize, LatticeError>(l@.len() as usize),
        Err(e) => r == Err::<usize, LatticeError>(e),
    }
}

/// A count is `Ok` exactly when the view can be evaluated.
pub proof fn lemma_count_ok(cat: Catalog, v: BuiltinView, now: i64, r: Result<usize, LatticeError>)
    requires
        count_outcome(cat, v, now, r),
    ensures
        r is Ok <==> builtin_ok(cat, v, now),
{
    let res = choose|res: Result<Vec<ObjectID>, LatticeError>| #[trigger] builtin_result(cat, v, now, res)
        && match res {
        Ok(l) => r == Ok::<usize, LatticeError>(l@.len() as usize),
        Err(e) => r == Err::<usize, LatticeError>(e),
    };
    lemma_builtin_ok(cat, v, now, res);
}

/// What summarising the built-in views at `now` gives: one summary per
/// view, in order, with its English name, description and count, when
/// every view can be evaluated; otherwise the error of the first view that
/// cannot.
pub open spec fn summary_outcome(cat: Catalog, now: i64, r: Result<Vec<ViewSummary>, LatticeError>) -> bool {
    &&& (forall|i: int| 0 <= i < all_builtin_views().len() ==> #[trigger] builtin_ok(cat, all_builtin_views()[i], now))
        ==> r is Ok
    &&& match r {
        Ok(v) => v@.len() == all_builtin_views().len() && forall|i: int|
            0 <= i < v@.len() ==> {
                &&& (#[trigger] v@[i]).view == all_builtin_views()[i]
                &&& v@[i].name@ == builtin_name(all_builtin_views()[i])
                &&& v@[i].description@ == builtin_description(all_builtin_views()[i])
                &&& count_outcome(cat, all_builtin_views()[i], now, Ok(v@[i].count))
            },
        Err(e) => exists|i: int|
            0 <= i < all_builtin_views().len() && (forall|k: int| 0 <= k < i ==> #[trigger] builtin_ok(cat, all_builtin_views()[k], now))
                && #[trigger] count_outcome(cat, all_builtin_views()[i], now, Err(e)),
    }
}

/// The built-in views evaluated over a catalog.
pub struct BuiltinViews<'a> {
    store: &'a Catalog,
}

impl<'a> BuiltinViews<'a> {
    /// The catalog the views read.
    pub closed spec fn catalog(&self) -> Catalog {
        *self.store
    }

    /// The built-in views of a catalog.
    pub fn new(store: &'a Catalog) -> (r: BuiltinViews<'a>)
        ensures
            r.catalog() == *store,
    {
        BuiltinViews { store }
    }

    /// The objects of a built-in view, time predicates judged at `now`.
    pub fn evaluate_at(&self, view: BuiltinView, now: i64) -> (r: Result<Vec<ObjectID>, LatticeError>)
        ensures
            builtin_result(self.catalog(), view, now, r),
    {
        let query = match parse(view.query()) {
            Ok(q) => q,
            Err(e) => return Err(e),
        };
        let evaluator = QueryEvaluator::new(self.store);
        let r = evaluator.execute_at(&query, now);
        proof {
            let o = choose|o: Result<Seq<ObjectID>, LookupFailure>|
                #[trigger] execute_outcome(evaluator.catalog(), query@, now, o) && list_result(r, o);
            assert(execute_outcome(self.catalog(), query@, now, o));
        }
        r
    }

    /// The objects of a built-in view now.
    pub fn evaluate(&self, view: BuiltinView) -> (r: Result<Vec<ObjectID>, LatticeError>)
        ensures
            exists|now: i64| #[trigger] builtin_result(self.catalog(), view, now, r),
    {
        let now = crate::model::tag::timestamp_now();
        let r = self.evaluate_at(view, now);
        assert(builtin_result(self.catalog(), view, now, r));
        r
    }

    /// How many objects a built-in view holds at `now`.
    pub fn count_at(&self, view: BuiltinView, now: i64) -> (r: Result<usize, LatticeError>)
        ensures
            count_outcome(self.catalog(), view, now, r),
    {
        let res = self.evaluate_at(view, now);
        let ghost g = res;
        match res {
            Ok(v) => {
                assert(builtin_result(self.catalog(), view, now, g));
                Ok(v.len())
            },
            Err(e) => {
                assert(builtin_result(self.catalog(), view, now, g));
                Err(e)
            },
        }
    }

    /// How many objects a built-in view holds now.
    pub fn count(&self, view: BuiltinView) -> (r: Result<usize, LatticeError>)
        ensures
            exists|now: i64| #[trigger] count_outcome(self.catalog(), view, now, r),
    {
        let now = crate::model::tag::timestamp_now();
        self.count_at(view, now)
    }

    /// A summary of every built-in view at `now`, in order: its name,
    /// description and object count; the first failure otherwise.
    pub fn summary_at(&self, now: i64) -> (r: Result<Vec<ViewSummary>, LatticeError>)
        ensures
            summary_outcome(self.catalog(), now, r),
    {
        let views = BuiltinView::all();
        let mut out: Vec<ViewSummary> = Vec::new();
        let mut i: usize = 0;
        while i < views.len()
            invariant
                i <= views@.len(),
                views@ == all_builtin_views(),
                out@.len() == i,
                forall|k: int| 0 <= k < i ==> #[trigger] builtin_ok(self.catalog(), all_builtin_views()[k], now),
                forall|k: int|
                    0 <= k < i ==> {
                        &&& (#[trigger] out@[k]).view == all_builtin_views()[k]
                        &&& out@[k].name@ == builtin_name(all_builtin_views()[k])
                        &&& out@[k].description@ == builtin_description(all_builtin_views()[k])
                        &&& count_outcome(self.catalog(), all_builtin_views()[k], now, Ok(out@[k].count))
                    },
            decreases views@.len() - i,
        {
            let v = views[i];
            let res = self.count_at(v, now);
            proof {
                lemma_count_ok(self.catalog(), v, now, res);
            }
            let count = match res {
                Ok(c) => c,
                Err(e) => {
                    proof {
                        assert(count_outcome(self.catalog(), all_builtin_views()[i as int], now, Err(e)));
                        assert(!builtin_ok(self.catalog(), all_builtin_views()[i as int], now));
                    }
                    return Err(e);
                },
            };
            out.push(ViewSummary { view: v, name: string_of(v.name()), description: string_of(v.description()), count });
            i = i + 1;
        }
        Ok(out)
    }

    /// A summary of every built-in view now.
    pub fn summary(&self) -> (r: Result<Vec<ViewSummary>, LatticeError>)
        ensures
            exists|now: i64| #[trigger] summary_outcome(self.catalog(), now, r),
    {
        let now = crate::model::tag::timestamp_now();
        self.summary_at(now)
    }
}

} // verus!
