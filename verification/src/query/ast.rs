//! LQL abstract syntax tree.

use vstd::prelude::*;
use crate::model::object::ObjectID;
use crate::model::state::State;
use crate::text::{chars_of, string_of, string_views};

verus! {

/// A whole query: a filter, an optional ordering and an optional limit.
#[derive(Debug, PartialEq)]
pub struct Query {
    pub expr: Expr,
    pub order: Option<OrderBy>,
    pub limit: Option<usize>,
}

/// Boolean filter expression.
#[derive(Debug, PartialEq)]
pub enum Expr {
    And(Box<Expr>, Box<Expr>),
    Or(Box<Expr>, Box<Expr>),
    Not(Box<Expr>),
    Predicate(Predicate),
}

/// Leaf predicate.
#[derive(Debug, Clone, PartialEq)]
pub enum Predicate {
    /// `tag:project:phoenix`
    Tag { path: Vec<String> },
    /// `type:application/pdf` or `type:image/*`
    Type { mime: MimePattern },
    /// `state:approved`
    State { state: State },
    /// `trust >= trusted`
    Trust { op: CompareOp, level: TrustLevel },
    /// `updated within 7d`
    Time { field: TimeField, op: TimeOp, value: TimeValue },
    /// `ref:<ref>`
    Ref { reference: ObjectRef },
    /// `references(<ref>)`
    References { target: ObjectRef },
    /// `closure(<ref>)`
    Closure { root: ObjectRef },
}

/// MIME type pattern; `minor` is `None` for the wildcard `*`.
#[derive(Debug, Clone, PartialEq)]
pub struct MimePattern {
    pub major: String,
    pub minor: Option<String>,
}

/// Comparison operator.
#[derive(Debug, Clone, Copy, PartialEq, Eq, Structural)]
pub enum CompareOp {
    Eq,
    Ne,
    Gt,
    Lt,
    Ge,
    Le,
}

/// Trust level.
#[derive(Debug, Clone, Copy, PartialEq, Eq, PartialOrd, Ord, Structural)]
pub enum TrustLevel {
    /// 0
    Untrusted,
    /// 25
    Quarantined,
    /// 75
    Trusted,
    /// 100
    Approved,
    /// Any other value.
    Numeric(u8),
}

/// Time field of a time predicate.
#[derive(Debug, Clone, Copy, PartialEq, Eq, Structural)]
pub enum TimeField {
    Updated,
    Created,
}

/// Time operator.
#[derive(Debug, Clone, Copy, PartialEq, Eq, Structural)]
pub enum TimeOp {
    /// Within the last duration.
    Within,
    /// Before a timestamp.
    Before,
    /// After a timestamp.
    After,
    /// Between two timestamps (inclusive).
    Between,
}

/// Value of a time predicate.
#[derive(Debug, Clone, Copy, PartialEq, Eq, Structural)]
pub enum TimeValue {
    /// A duration, in seconds.
    Duration(u64),
    /// A timestamp, in Unix microseconds.
    Timestamp(i64),
    /// An inclusive range of timestamps, in Unix microseconds.
    Range { start: i64, end: i64 },
}

/// Object reference of a traversal predicate.
#[derive(Debug, Clone, PartialEq)]
pub enum ObjectRef {
    /// Object ID (UUID).
    Id(ObjectID),
    /// Content hash.
    Hash(String),
    /// Tag path.
    Tag(Vec<String>),
    /// Alias.
    Alias(String),
}

/// Ordering of the results.
#[derive(Debug, Clone, Copy, PartialEq, Eq, Structural)]
pub struct OrderBy {
    pub field: SortField,
    pub direction: SortDirection,
}

/// Field to sort by.
#[derive(Debug, Clone, Copy, PartialEq, Eq, Structural)]
pub enum SortField {
    Updated,
    Created,
    Size,
    Trust,
}

/// Sort direction.
#[derive(Debug, Clone, Copy, PartialEq, Eq, Structural)]
pub enum SortDirection {
    Asc,
    Desc,
}

impl Default for SortDirection {
    fn default() -> (r: SortDirection)
        ensures
            r == SortDirection::Desc,
    {
        SortDirection::Desc
    }
}

// ---- Views ----

/// A query as the specifications see it.
pub struct QueryV {
    pub expr: ExprV,
    pub order: Option<OrderBy>,
    pub limit: Option<usize>,
}

pub enum ExprV {
    And(Box<ExprV>, Box<ExprV>),
    Or(Box<ExprV>, Box<ExprV>),
    Not(Box<ExprV>),
    Pred(PredicateV),
}

pub enum PredicateV {
    Tag(Seq<Seq<char>>),
    Type(MimeV),
    State(State),
    Trust(CompareOp, TrustLevel),
    Time(TimeField, TimeOp, TimeValue),
    Ref(ObjectRefV),
    References(ObjectRefV),
    Closure(ObjectRefV),
}

pub struct MimeV {
    pub major: Seq<char>,
    pub minor: Option<Seq<char>>,
}

pub enum ObjectRefV {
    Id(ObjectID),
    Hash(Seq<char>),
    Tag(Seq<Seq<char>>),
    Alias(Seq<char>),
}

pub open spec fn opt_string_view(o: Option<String>) -> Option<Seq<char>> {
    match o {
        Some(s) => Some(s@),
        None => None,
    }
}

impl View for MimePattern {
    type V = MimeV;

    open spec fn view(&self) -> MimeV {
        MimeV { major: self.major@, minor: opt_string_view(self.minor) }
    }
}

impl View for ObjectRef {
    type V = ObjectRefV;

    open spec fn view(&self) -> ObjectRefV {
        match self {
            ObjectRef::Id(id) => ObjectRefV::Id(*id),
            ObjectRef::Hash(h) => ObjectRefV::Hash(h@),
            ObjectRef::Tag(p) => ObjectRefV::Tag(string_views(p@)),
            ObjectRef::Alias(a) => ObjectRefV::Alias(a@),
        }
    }
}

impl View for Predicate {
    type V = PredicateV;

    open spec fn view(&self) -> PredicateV {
        match self {
            Predicate::Tag { path } => PredicateV::Tag(string_views(path@)),
            Predicate::Type { mime } => PredicateV::Type(mime@),
            Predicate::State { state } => PredicateV::State(*state),
            Predicate::Trust { op, level } => PredicateV::Trust(*op, *level),
            Predicate::Time { field, op, value } => PredicateV::Time(*field, *op, *value),
            Predicate::Ref { reference } => PredicateV::Ref(reference@),
            Predicate::References { target } => PredicateV::References(target@),
            Predicate::Closure { root } => PredicateV::Closure(root@),
        }
    }
}

pub open spec fn expr_view(e: Expr) -> ExprV
    decreases e,
{
    match e {
        Expr::And(l, r) => ExprV::And(Box::new(expr_view(*l)), Box::new(expr_view(*r))),
        Expr::Or(l, r) => ExprV::Or(Box::new(expr_view(*l)), Box::new(expr_view(*r))),
        Expr::Not(x) => ExprV::Not(Box::new(expr_view(*x))),
        Expr::Predicate(p) => ExprV::Pred(p@),
    }
}

impl View for Expr {
    type V = ExprV;

    open spec fn view(&self) -> ExprV {
        expr_view(*self)
    }
}

impl View for Query {
    type V = QueryV;

    open spec fn view(&self) -> QueryV {
        QueryV { expr: self.expr@, order: self.order, limit: self.limit }
    }
}

// ---- Builders ----

impl Query {
    /// A query with just a filter.
    pub fn new(expr: Expr) -> (r: Query)
        ensures
            r@ == (QueryV { expr: expr@, order: None, limit: None }),
    {
        Query { expr, order: None, limit: None }
    }

    /// The query with this ordering.
    pub fn with_order(self, order: OrderBy) -> (r: Query)
        ensures
            r@ == (QueryV { order: Some(order), ..self@ }),
    {
        Query { order: Some(order), ..self }
    }

    /// The query with this result limit.
    pub fn with_limit(self, limit: usize) -> (r: Query)
        ensures
            r@ == (QueryV { limit: Some(limit), ..self@ }),
    {
        Query { limit: Some(limit), ..self }
    }
}

impl Expr {
    /// `left AND right`
    pub fn and(left: Expr, right: Expr) -> (r: Expr)
        ensures
            r@ == ExprV::And(Box::new(left@), Box::new(right@)),
    {
        Expr::And(Box::new(left), Box::new(right))
    }

    /// `left OR right`
    pub fn or(left: Expr, right: Expr) -> (r: Expr)
        ensures
            r@ == ExprV::Or(Box::new(left@), Box::new(right@)),
    {
        Expr::Or(Box::new(left), Box::new(right))
    }

    /// `NOT expr`
    pub fn not(expr: Expr) -> (r: Expr)
        ensures
            r@ == ExprV::Not(Box::new(expr@)),
    {
        Expr::Not(Box::new(expr))
    }

    /// A leaf predicate.
    pub fn predicate(pred: Predicate) -> (r: Expr)
        ensures
            r@ == ExprV::Pred(pred@),
    {
        Expr::Predicate(pred)
    }
}

impl Predicate {
    /// A tag predicate.
    pub fn tag(path: Vec<String>) -> (r: Predicate)
        ensures
            r@ == PredicateV::Tag(string_views(path@)),
    {
        Predicate::Tag { path }
    }

    /// A type predicate.
    pub fn mime_type(major: &str, minor: Option<&str>) -> (r: Predicate)
        ensures
            r@ == PredicateV::Type(MimeV {
                major: major@,
                minor: match minor {
                    Some(m) => Some(m@),
                    None => None,
                },
            }),
    {
        Predicate::Type { mime: MimePattern::new(major, minor) }
    }

    /// A state predicate.
    pub fn state(state: State) -> (r: Predicate)
        ensures
            r@ == PredicateV::State(state),
    {
        Predicate::State { state }
    }
}

/// Whether the text has exactly one `/`; then the parts before and after it.
pub open spec fn split_mime(s: Seq<char>) -> Option<(Seq<char>, Seq<char>)> {
    if exists|i: int| 0 <= i < s.len() && s[i] == '/' && (forall|j: int| 0 <= j < s.len() && j != i ==> s[j] != '/') {
        let i = choose|i: int| 0 <= i < s.len() && s[i] == '/' && (forall|j: int| 0 <= j < s.len() && j != i ==> s[j] != '/');
        Some((s.subrange(0, i), s.subrange(i + 1, s.len() as int)))
    } else {
        None
    }
}

/// Whether a MIME type matches a pattern.
pub open spec fn mime_matches(p: MimeV, mime: Seq<char>) -> bool {
    match split_mime(mime) {
        None => false,
        Some((major, minor)) => {
            (p.major == "*"@ || p.major == major) && match p.minor {
                Some(m) => m == "*"@ || m == minor,
                None => true,
            }
        },
    }
}

impl MimePattern {
    /// A MIME pattern.
    pub fn new(major: &str, minor: Option<&str>) -> (r: MimePattern)
        ensures
            r@ == (MimeV {
                major: major@,
                minor: match minor {
                    Some(m) => Some(m@),
                    None => None,
                },
            }),
    {
        MimePattern {
            major: string_of(major),
            minor: match minor {
                Some(m) => Some(string_of(m)),
                None => None,
            },
        }
    }

    /// Whether `mime_type` (of the form `major/minor`) matches this pattern.
    pub fn matches(&self, mime_type: &str) -> (r: bool)
        ensures
            r == mime_matches(self@, mime_type@),
    {
        let chars = chars_of(mime_type);
        let n = chars.len();
        let mut count: usize = 0;
        let mut slash: usize = 0;
        let mut i: usize = 0;
        while i < n
            invariant
                n == chars@.len(),
                chars@ == mime_type@,
                i <= n,
                count <= i,
                count == 0 ==> forall|j: int| 0 <= j < i ==> chars@[j] != '/',
                count >= 1 ==> slash < i && chars@[slash as int] == '/',
                count == 1 ==> forall|j: int| 0 <= j < i && j != slash ==> chars@[j] != '/',
                count >= 2 ==> exists|j: int| 0 <= j < i && j != slash && chars@[j] == '/',
            decreases n - i,
        {
            if chars[i] == '/' {
                if count == 0 {
                    slash = i;
                }
                count = count + 1;
            }
            i = i + 1;
        }
        let ghost s = mime_type@;
        if count != 1 {
            proof {
                if exists|k: int| 0 <= k < s.len() && s[k] == '/' && (forall|j: int| 0 <= j < s.len() && j != k ==> s[j] != '/') {
                    let k = choose|k: int| 0 <= k < s.len() && s[k] == '/' && (forall|j: int| 0 <= j < s.len() && j != k ==> s[j] != '/');
                    if count >= 2 {
                        let j = choose|j: int| 0 <= j < n && j != slash && chars@[j] == '/';
                        assert(s[slash as int] == '/');
                        assert(false);
                    }
                }
            }
            return false;
        }
        proof {
            assert(0 <= slash < s.len() && s[slash as int] == '/' && (forall|j: int| 0 <= j < s.len() && j != slash ==> s[j] != '/'));
            let k = choose|k: int| 0 <= k < s.len() && s[k] == '/' && (forall|j: int| 0 <= j < s.len() && j != k ==> s[j] != '/');
            assert(k == slash);
        }
        let major = &chars[0..slash];
        let minor = &chars[slash + 1..n];
        assert(major@ =~= s.subrange(0, slash as int));
        assert(minor@ =~= s.subrange(slash + 1, n as int));
        let self_major = chars_of(self.major.as_str());
        let major_ok = crate::text::chars_eq_str(self_major.as_slice(), "*") || crate::text::chars_eq_str(major, self.major.as_str());
        if !major_ok {
            return false;
        }
        match &self.minor {
            Some(m) => crate::text::chars_eq_str(chars_of(m.as_str()).as_slice(), "*") || crate::text::chars_eq_str(minor, m.as_str()),
            None => true,
        }
    }
}

/// The numeric value of a trust level.
pub open spec fn trust_value(t: TrustLevel) -> u8 {
    match t {
        TrustLevel::Untrusted => 0,
        TrustLevel::Quarantined => 25,
        TrustLevel::Trusted => 75,
        TrustLevel::Approved => 100,
        TrustLevel::Numeric(v) => v,
    }
}

impl TrustLevel {
    /// The numeric value of this trust level.
    pub fn value(&self) -> (r: u8)
        ensures
            r == trust_value(*self),
    {
        match self {
            TrustLevel::Untrusted => 0,
            TrustLevel::Quarantined => 25,
            TrustLevel::Trusted => 75,
            TrustLevel::Approved => 100,
            TrustLevel::Numeric(v) => *v,
        }
    }
}

impl OrderBy {
    /// An ordering.
    pub fn new(field: SortField, direction: SortDirection) -> (r: OrderBy)
        ensures
            r.field == field,
            r.direction == direction,
    {
        OrderBy { field, direction }
    }
}

} // verus!
