//! Explanations of why an object matched a query, and their text.

use vstd::prelude::*;
use vstd::utf8::encode_utf8;
use crate::error::LatticeError;
use crate::model::link::{Link, LinkType};
use crate::model::object::{uuid_text, Object, ObjectID};
use crate::model::state::state_debug_name;
use crate::model::tag::{tag_path, Tag};
use crate::query::ast::{
    expr_view, mime_matches, opt_string_view, trust_value, CompareOp, Expr, ExprV, MimeV, ObjectRefV, Predicate,
    PredicateV, Query, TimeField, TimeOp, TimeValue, TrustLevel,
};
use crate::query::catalog::{
    contains_id, failure_matches, first_key_pos, id_of_bytes, lemma_first_key, lemma_no_key, object_id_from_bytes,
    Catalog, LookupFailure,
};
use crate::query::display::{
    compare_op_text, mime_text, object_ref_text, time_field_text, time_op_text, time_value_debug, trust_level_text,
};
use crate::query::lexer::{decimal_chars, int_text, push_decimal, push_int};
use crate::security::{trust_level, trust_level_of};
use crate::text::{join_strings, joined, starts_with, str_eq, string_of, string_views};

verus! {

/// Why (part of) a query matched an object or did not.
#[derive(Debug)]
pub enum Reason {
    And { matched: bool, left: Box<Reason>, right: Box<Reason> },
    Or { matched: bool, left: Box<Reason>, right: Box<Reason> },
    Not { matched: bool, inner: Box<Reason> },
    Predicate { matched: bool, description: String, actual_value: Option<String> },
}

/// The explanation for one object.
#[derive(Debug)]
pub struct Explanation {
    pub object_id: ObjectID,
    pub matched: bool,
    pub reason: Reason,
}

/// The mark of a result: a check mark or a cross.
pub open spec fn status_mark(matched: bool) -> Seq<char> {
    if matched { "✓"@ } else { "✗"@ }
}

/// Two spaces per level of indentation.
pub open spec fn indent_prefix(n: nat) -> Seq<char>
    decreases n,
{
    if n == 0 { seq![] } else { indent_prefix((n - 1) as nat) + "  "@ }
}

/// The text of a reason tree, one line per node, children indented.
pub open spec fn reason_text(r: Reason, indent: nat) -> Seq<char>
    decreases r,
{
    match r {
        Reason::And { matched, left, right } => indent_prefix(indent) + status_mark(matched) + " AND\n"@
            + reason_text(*left, indent + 1) + reason_text(*right, indent + 1),
        Reason::Or { matched, left, right } => indent_prefix(indent) + status_mark(matched) + " OR\n"@
            + reason_text(*left, indent + 1) + reason_text(*right, indent + 1),
        Reason::Not { matched, inner } => indent_prefix(indent) + status_mark(matched) + " NOT\n"@
            + reason_text(*inner, indent + 1),
        Reason::Predicate { matched, description, actual_value } => indent_prefix(indent) + status_mark(matched) + " "@
            + description@ + match actual_value {
            Some(a) => " (actual: "@ + a@ + ")\n"@,
            None => "\n"@,
        },
    }
}

/// Append the indentation and the mark of a line.
fn push_line_start(out: &mut String, indent: usize, matched: bool)
    ensures
        final(out)@ == old(out)@ + indent_prefix(indent as nat) + status_mark(matched),
{
    let mut i: usize = 0;
    while i < indent
        invariant
            i <= indent,
            out@ == old(out)@ + indent_prefix(i as nat),
        decreases indent - i,
    {
        out.append("  ");
        i = i + 1;
    }
    if matched {
        out.append("✓");
    } else {
        out.append("✗");
    }
}

/// Append the line of a predicate.
fn push_predicate_line(out: &mut String, indent: usize, matched: bool, description: &String, actual_value: &Option<String>)
    ensures
        final(out)@ == old(out)@ + indent_prefix(indent as nat) + status_mark(matched) + " "@ + description@ + (match actual_value {
            Some(a) => " (actual: "@ + a@ + ")\n"@,
            None => "\n"@,
        }),
{
    let ghost o0 = out@;
    push_line_start(out, indent, matched);
    out.append(" ");
    out.append(description.as_str());
    match actual_value {
        Some(a) => {
            out.append(" (actual: ");
            out.append(a.as_str());
            out.append(")\n");
        },
        None => {
            out.append("\n");
        },
    }
    assert(out@ =~= o0 + indent_prefix(indent as nat) + status_mark(matched) + " "@ + description@ + (match actual_value {
        Some(a) => " (actual: "@ + a@ + ")\n"@,
        None => "\n"@,
    }));
}

impl Reason {
    /// Append the text of this reason tree at an indentation.
    #[verifier::rlimit(40)]
    pub fn render_into(&self, out: &mut String, indent: usize)
        requires
            indent + self.depth() <= usize::MAX,
        ensures
            final(out)@ == old(out)@ + reason_text(*self, indent as nat),
        decreases self,
    {
        match self {
            Reason::And { matched, left, right } => {
                let ghost o0 = out@;
                push_line_start(out, indent, *matched);
                out.append(" AND\n");
                let ghost o1 = out@;
                left.render_into(out, indent + 1);
                let ghost o2 = out@;
                right.render_into(out, indent + 1);
                proof {
                    assert(o2 == o1 + reason_text(**left, (indent + 1) as nat));
                    assert(out@ =~= o0 + reason_text(*self, indent as nat));
                }
            },
            Reason::Or { matched, left, right } => {
                let ghost o0 = out@;
                push_line_start(out, indent, *matched);
                out.append(" OR\n");
                let ghost o1 = out@;
                left.render_into(out, indent + 1);
                let ghost o2 = out@;
                right.render_into(out, indent + 1);
                proof {
                    assert(o2 == o1 + reason_text(**left, (indent + 1) as nat));
                    assert(out@ =~= o0 + reason_text(*self, indent as nat));
                }
            },
            Reason::Not { matched, inner } => {
                let ghost o0 = out@;
                push_line_start(out, indent, *matched);
                out.append(" NOT\n");
                inner.render_into(out, indent + 1);
                proof {
                    assert(out@ =~= o0 + reason_text(*self, indent as nat));
                }
            },
            Reason::Predicate { matched, description, actual_value } => {
                push_predicate_line(out, indent, *matched, description, actual_value);
            },
        }
    }

    /// How deep the tree is (a leaf is 0).
    pub open spec fn depth(&self) -> nat
        decreases self,
    {
        match self {
            Reason::And { left, right, .. } => 1 + if left.depth() >= right.depth() { left.depth() } else { right.depth() },
            Reason::Or { left, right, .. } => 1 + if left.depth() >= right.depth() { left.depth() } else { right.depth() },
            Reason::Not { inner, .. } => 1 + inner.depth(),
            Reason::Predicate { .. } => 0,
        }
    }
}

impl Explanation {
    /// `Object <id>: MATCHED` (or `DID NOT MATCH`), then the reason tree.
    pub fn to_string(&self) -> (r: String)
        requires
            self.reason.depth() <= usize::MAX,
        ensures
            r@ == "Object "@ + uuid_text(self.object_id.0) + ": "@
                + (if self.matched { "MATCHED"@ } else { "DID NOT MATCH"@ }) + "\n"@ + reason_text(self.reason, 0),
    {
        let mut out = string_of("Object ");
        let id = self.object_id.to_string();
        out.append(id.as_str());
        out.append(": ");
        if self.matched {
            out.append("MATCHED");
        } else {
            out.append("DID NOT MATCH");
        }
        out.append("\n");
        self.reason.render_into(&mut out, 0);
        out
    }
}


// ---- What an explanation says ----

/// A reason tree as the specifications see it.
pub enum ReasonV {
    And(bool, Box<ReasonV>, Box<ReasonV>),
    Or(bool, Box<ReasonV>, Box<ReasonV>),
    Not(bool, Box<ReasonV>),
    Pred(bool, Seq<char>, Option<Seq<char>>),
}

pub open spec fn reason_view(r: Reason) -> ReasonV
    decreases r,
{
    match r {
        Reason::And { matched, left, right } => ReasonV::And(
            matched,
            Box::new(reason_view(*left)),
            Box::new(reason_view(*right)),
        ),
        Reason::Or { matched, left, right } => ReasonV::Or(
            matched,
            Box::new(reason_view(*left)),
            Box::new(reason_view(*right)),
        ),
        Reason::Not { matched, inner } => ReasonV::Not(matched, Box::new(reason_view(*inner))),
        Reason::Predicate { matched, description, actual_value } => ReasonV::Pred(
            matched,
            description@,
            opt_string_view(actual_value),
        ),
    }
}

impl View for Reason {
    type V = ReasonV;

    open spec fn view(&self) -> ReasonV {
        reason_view(*self)
    }
}

/// Whether a reason is a match.
pub open spec fn reason_matched(r: ReasonV) -> bool {
    match r {
        ReasonV::And(m, _, _) => m,
        ReasonV::Or(m, _, _) => m,
        ReasonV::Not(m, _) => m,
        ReasonV::Pred(m, _, _) => m,
    }
}

/// The `key:value` paths of tags.
pub open spec fn tag_full_paths(tags: Seq<Tag>) -> Seq<Seq<char>> {
    tags.map_values(|t: Tag| tag_path(t.key@, t.value@))
}

/// Whether a tag path falls under a pattern: it is the pattern, or it
/// starts with it and has a `:` at the character index that is the
/// pattern's length in bytes.
pub open spec fn explain_tag_match(full: Seq<char>, pattern: Seq<char>) -> bool {
    let b = (encode_utf8(pattern).len() as usize) as int;
    full == pattern || (pattern.is_prefix_of(full) && b < full.len() && full[b] == ':')
}

/// The paths that fall under a pattern, in order.
pub open spec fn matching_paths(paths: Seq<Seq<char>>, pattern: Seq<char>) -> Seq<Seq<char>>
    decreases paths.len(),
{
    if paths.len() == 0 {
        seq![]
    } else {
        matching_paths(paths.drop_last(), pattern) + if explain_tag_match(paths.last(), pattern) {
            seq![paths.last()]
        } else {
            seq![]
        }
    }
}

/// The value of the first tag with a key.
pub open spec fn first_tag_value(tags: Seq<Tag>, key: Seq<char>) -> Option<Seq<char>> {
    match first_key_pos(tags.map_values(|t: Tag| t.key@), key) {
        Some(i) => Some(tags[i].value@),
        None => None,
    }
}

/// Whether a comparison holds.
pub open spec fn compare_holds(op: CompareOp, a: u8, b: u8) -> bool {
    match op {
        CompareOp::Eq => a == b,
        CompareOp::Ne => a != b,
        CompareOp::Gt => a > b,
        CompareOp::Lt => a < b,
        CompareOp::Ge => a >= b,
        CompareOp::Le => a <= b,
    }
}

/// Whether a timestamp satisfies a time predicate at `now`: within a
/// duration (the threshold computed with wrapping `i64` arithmetic, seconds
/// to microseconds), before or after a timestamp, or inside a range whose
/// ends may come in either order; other pairings never hold.
pub open spec fn time_matches(op: TimeOp, value: TimeValue, ts: i64, now: i64) -> bool {
    match (op, value) {
        (TimeOp::Within, TimeValue::Duration(d)) => ts >= now.wrapping_sub((d as i64).wrapping_mul(1_000_000)),
        (TimeOp::Before, TimeValue::Timestamp(t)) => ts < t,
        (TimeOp::After, TimeValue::Timestamp(t)) => ts > t,
        (TimeOp::Between, TimeValue::Range { start, end }) => {
            let lo = if start <= end { start } else { end };
            let hi = if start <= end { end } else { start };
            ts >= lo && ts <= hi
        },
        _ => false,
    }
}

/// The meaning of the time operators: `before t` holds exactly of earlier
/// timestamps, `after t` exactly of later ones, `between` exactly of those
/// inside the range (either end first, both included), `within d` exactly
/// of timestamps no older than `d` seconds before `now` (the threshold in
/// wrapping `i64` microseconds); an operator paired with the wrong kind of
/// value never holds.
pub proof fn lemma_time_operators(op: TimeOp, value: TimeValue, ts: i64, now: i64)
    ensures
        match (op, value) {
            (TimeOp::Before, TimeValue::Timestamp(t)) => time_matches(op, value, ts, now) <==> ts < t,
            (TimeOp::After, TimeValue::Timestamp(t)) => time_matches(op, value, ts, now) <==> ts > t,
            (TimeOp::Between, TimeValue::Range { start, end }) => time_matches(op, value, ts, now) <==> ((start <= ts
                && ts <= end) || (end <= ts && ts <= start)),
            (TimeOp::Within, TimeValue::Duration(d)) => time_matches(op, value, ts, now) <==> ts >= now.wrapping_sub(
                (d as i64).wrapping_mul(1_000_000),
            ),
            _ => !time_matches(op, value, ts, now),
        },
        (op is Before && time_matches(op, value, ts, now)) ==> !time_matches(TimeOp::After, value, ts, now),
{
}

/// Whole seconds in a signed count of microseconds, rounded toward zero.
pub open spec fn micros_to_secs(diff: i64) -> int {
    if diff >= 0 {
        diff / 1_000_000
    } else {
        -((-diff) / 1_000_000)
    }
}

/// How long ago, for an age in seconds: seconds under a minute (negative
/// ages too), else whole minutes, hours or days.
pub open spec fn age_text(age: int) -> Seq<char> {
    if age < 60 {
        int_text(age) + "s ago"@
    } else if age < 3600 {
        int_text(age / 60) + "m ago"@
    } else if age < 86400 {
        int_text(age / 3600) + "h ago"@
    } else {
        int_text(age / 86400) + "d ago"@
    }
}

/// The first eight characters of the UUIDs that the outgoing `References`
/// links (with 16-byte targets) point to, in link order.
pub open spec fn reference_prefixes(links: Seq<Link>) -> Seq<Seq<char>>
    decreases links.len(),
{
    if links.len() == 0 {
        seq![]
    } else {
        let l = links.last();
        reference_prefixes(links.drop_last()) + if l.link_type == LinkType::References && l.target@.len() == 16 {
            seq![uuid_text(id_of_bytes(l.target@).0).take(8)]
        } else {
            seq![]
        }
    }
}

/// Some `References` link points to one of the targets.
pub open spec fn references_any(links: Seq<Link>, targets: Seq<ObjectID>) -> bool {
    exists|i: int|
        0 <= i < links.len() && links[i].link_type == LinkType::References && links[i].target@.len() == 16
            && targets.contains(id_of_bytes(#[trigger] links[i].target@))
}

/// The explanation of a tag predicate with this pattern: a match when some
/// tag path falls under it, the matching paths or else all of them shown.
pub open spec fn tag_reason_spec(tags: Seq<Tag>, pattern: Seq<char>) -> ReasonV {
    let all = tag_full_paths(tags);
    let hits = matching_paths(all, pattern);
    ReasonV::Pred(hits.len() > 0, "tag:"@ + pattern, Some(
        if hits.len() > 0 {
            joined(hits, ", "@)
        } else if all.len() == 0 {
            "no tags"@
        } else {
            "tags: "@ + joined(all, ", "@)
        },
    ))
}

/// The explanation of a type predicate: the first `auto:mimetype` tag's
/// value must match the pattern.
pub open spec fn type_reason_spec(tags: Seq<Tag>, mime: MimeV) -> ReasonV {
    let actual = first_tag_value(tags, "auto:mimetype"@);
    ReasonV::Pred(
        match actual {
            Some(m) => mime_matches(mime, m),
            None => false,
        },
        "type:"@ + mime_text(mime),
        Some(
            match actual {
                Some(m) => m,
                None => "no mimetype"@,
            },
        ),
    )
}

/// The explanation of a trust predicate: the tags' trust level compared
/// with the level's value.
pub open spec fn trust_reason_spec(tags: Seq<Tag>, op: CompareOp, level: TrustLevel) -> ReasonV {
    let t = trust_level_of(tags);
    ReasonV::Pred(
        compare_holds(op, t, trust_value(level)),
        "trust "@ + compare_op_text(op) + " "@ + trust_level_text(level),
        Some(decimal_chars(t as nat)),
    )
}

/// The explanation of a time predicate for a timestamp at `now`.
pub open spec fn time_reason_spec(ts: i64, field: TimeField, op: TimeOp, value: TimeValue, now: i64) -> ReasonV {
    ReasonV::Pred(
        time_matches(op, value, ts, now),
        time_field_text(field) + " "@ + time_op_text(op) + " "@ + time_value_debug(value),
        Some(age_text(micros_to_secs(now.wrapping_sub(ts)))),
    )
}

/// The explanation of a references predicate for an object's links.
pub open spec fn references_reason_spec(links: Seq<Link>, targets: Seq<ObjectID>, r: ObjectRefV) -> ReasonV {
    let short = reference_prefixes(links);
    ReasonV::Pred(
        references_any(links, targets),
        "references("@ + object_ref_text(r) + ")"@,
        Some(
            if short.len() == 0 {
                "no outgoing links"@
            } else {
                "links to: "@ + joined(short, ", "@)
            },
        ),
    )
}

/// The explanation of a predicate for an object at `now`; the object must
/// be stored.
pub open spec fn predicate_reason(cat: Catalog, id: ObjectID, p: PredicateV, now: i64) -> Result<ReasonV, LookupFailure> {
    match cat.object(id) {
        None => Err(LookupFailure::ObjectMissing(id)),
        Some(o) => match p {
            PredicateV::Tag(path) => Ok(tag_reason_spec(o.tags@, joined(path, ":"@))),
            PredicateV::Type(mime) => Ok(type_reason_spec(o.tags@, mime)),
            PredicateV::State(state) => match cat.version(o.current_version) {
                None => Err(LookupFailure::VersionMissing(o.current_version)),
                Some(v) => Ok(ReasonV::Pred(
                    v.state == state,
                    "state:"@ + state_debug_name(state),
                    Some(state_debug_name(v.state)),
                )),
            },
            PredicateV::Trust(op, level) => Ok(trust_reason_spec(o.tags@, op, level)),
            PredicateV::Time(field, op, value) => {
                let ts = match field {
                    TimeField::Created => o.created_at,
                    TimeField::Updated => match cat.version(o.current_version) {
                        Some(v) => v.created_at,
                        None => o.created_at,
                    },
                };
                Ok(time_reason_spec(ts, field, op, value, now))
            },
            PredicateV::Ref(r) => {
                let m: Result<bool, LookupFailure> = match r {
                    ObjectRefV::Id(x) => Ok(x == id),
                    ObjectRefV::Alias(a) => match cat.alias_target(a) {
                        Err(f) => Err(f),
                        Ok(Some(x)) => Ok(x == id),
                        Ok(None) => Ok(false),
                    },
                    _ => Ok(false),
                };
                match m {
                    Err(f) => Err(f),
                    Ok(b) => Ok(ReasonV::Pred(b, "ref:"@ + object_ref_text(r), Some(uuid_text(id.0)))),
                }
            },
            PredicateV::References(r) => match cat.ref_targets(r) {
                Err(f) => Err(f),
                Ok(targets) => Ok(references_reason_spec(o.links@, targets, r)),
            },
            PredicateV::Closure(r) => match cat.closure_of(r) {
                Err(f) => Err(f),
                Ok(c) => Ok(ReasonV::Pred(
                    c.contains(id),
                    "closure("@ + object_ref_text(r) + ")"@,
                    Some("closure size: "@ + decimal_chars(c.len())),
                )),
            },
        },
    }
}

/// The explanation of an expression for an object at `now`: predicates as
/// above, `AND` and `OR` of both sides (left first), `NOT` of the inner one.
pub open spec fn expr_reason(cat: Catalog, id: ObjectID, e: ExprV, now: i64) -> Result<ReasonV, LookupFailure>
    decreases e,
{
    match e {
        ExprV::And(l, r) => match expr_reason(cat, id, *l, now) {
            Err(f) => Err(f),
            Ok(lr) => match expr_reason(cat, id, *r, now) {
                Err(f) => Err(f),
                Ok(rr) => Ok(ReasonV::And(reason_matched(lr) && reason_matched(rr), Box::new(lr), Box::new(rr))),
            },
        },
        ExprV::Or(l, r) => match expr_reason(cat, id, *l, now) {
            Err(f) => Err(f),
            Ok(lr) => match expr_reason(cat, id, *r, now) {
                Err(f) => Err(f),
                Ok(rr) => Ok(ReasonV::Or(reason_matched(lr) || reason_matched(rr), Box::new(lr), Box::new(rr))),
            },
        },
        ExprV::Not(x) => match expr_reason(cat, id, *x, now) {
            Err(f) => Err(f),
            Ok(xr) => Ok(ReasonV::Not(!reason_matched(xr), Box::new(xr))),
        },
        ExprV::Pred(p) => predicate_reason(cat, id, p, now),
    }
}

/// A result agrees with the explanation of an expression.
pub open spec fn reason_outcome(r: Result<Reason, LatticeError>, cat: Catalog, id: ObjectID, e: ExprV, now: i64) -> bool {
    match expr_reason(cat, id, e, now) {
        Ok(v) => r matches Ok(x) && x@ == v,
        Err(f) => r matches Err(err) && failure_matches(err, f),
    }
}

/// A result agrees with the explanation of a query's filter.
pub open spec fn explanation_outcome(
    r: Result<Explanation, LatticeError>,
    cat: Catalog,
    id: ObjectID,
    e: ExprV,
    now: i64,
) -> bool {
    match expr_reason(cat, id, e, now) {
        Ok(v) => r matches Ok(x) && x.object_id == id && x.reason@ == v && x.matched == reason_matched(v),
        Err(f) => r matches Err(err) && failure_matches(err, f),
    }
}


// ---- Computing explanations ----

/// Whether a tag path falls under a pattern (see `explain_tag_match`).
pub(crate) fn explain_tag_matches(full: &str, pattern: &str) -> (r: bool)
    ensures
        r == explain_tag_match(full@, pattern@),
{
    if str_eq(full, pattern) {
        return true;
    }
    if !starts_with(full, pattern) {
        return false;
    }
    let b = pattern.len();
    if b < full.unicode_len() {
        full.get_char(b) == ':'
    } else {
        false
    }
}

/// The value of the first tag with a key.
pub(crate) fn first_tag_value_of<'t>(tags: &'t Vec<Tag>, key: &str) -> (r: Option<&'t String>)
    ensures
        match first_tag_value(tags@, key@) {
            Some(v) => r matches Some(s) && s@ == v,
            None => r is None,
        },
{
    let ghost keys = tags@.map_values(|t: Tag| t.key@);
    let mut i: usize = 0;
    while i < tags.len()
        invariant
            i <= tags@.len(),
            keys == tags@.map_values(|t: Tag| t.key@),
            forall|j: int| 0 <= j < i ==> #[trigger] keys[j] != key@,
        decreases tags@.len() - i,
    {
        if str_eq(tags[i].key.as_str(), key) {
            proof {
                lemma_first_key(keys, key@, i as int);
            }
            return Some(&tags[i].value);
        }
        i = i + 1;
    }
    proof {
        lemma_no_key(keys, key@);
    }
    None
}

/// The explanation of a tag predicate.
fn tag_reason(tags: &Vec<Tag>, path: &Vec<String>) -> (r: Reason)
    ensures
        r@ == tag_reason_spec(tags@, joined(string_views(path@), ":"@)),
{
    let pattern = join_strings(path, ":");
    let ghost all_paths = tag_full_paths(tags@);
    let mut hits: Vec<String> = Vec::new();
    let mut all: Vec<String> = Vec::new();
    let mut i: usize = 0;
    while i < tags.len()
        invariant
            i <= tags@.len(),
            all_paths == tag_full_paths(tags@),
            string_views(all@) == all_paths.take(i as int),
            string_views(hits@) == matching_paths(all_paths.take(i as int), pattern@),
        decreases tags@.len() - i,
    {
        let full = tags[i].full_path();
        proof {
            assert(all_paths.take(i + 1).drop_last() =~= all_paths.take(i as int));
        }
        all.push(string_of(full.as_str()));
        if explain_tag_matches(full.as_str(), pattern.as_str()) {
            hits.push(full);
        }
        proof {
            assert(string_views(all@) =~= all_paths.take(i + 1));
            assert(string_views(hits@) =~= matching_paths(all_paths.take(i + 1), pattern@));
        }
        i = i + 1;
    }
    assert(all_paths.take(i as int) =~= all_paths);
    let mut description = string_of("tag:");
    description.append(pattern.as_str());
    let actual = if hits.len() > 0 {
        join_strings(&hits, ", ")
    } else if all.len() == 0 {
        string_of("no tags")
    } else {
        let mut t = string_of("tags: ");
        let j = join_strings(&all, ", ");
        t.append(j.as_str());
        t
    };
    Reason::Predicate { matched: hits.len() > 0, description, actual_value: Some(actual) }
}

/// The explanation of a type predicate.
fn type_reason(tags: &Vec<Tag>, mime: &crate::query::ast::MimePattern) -> (r: Reason)
    ensures
        r@ == type_reason_spec(tags@, mime@),
{
    let actual = first_tag_value_of(tags, "auto:mimetype");
    let matched = match actual {
        Some(m) => mime.matches(m.as_str()),
        None => false,
    };
    let mut description = string_of("type:");
    let m = mime.to_string();
    description.append(m.as_str());
    let shown = match actual {
        Some(m) => string_of(m.as_str()),
        None => string_of("no mimetype"),
    };
    Reason::Predicate { matched, description, actual_value: Some(shown) }
}

/// Whether a comparison holds.
pub(crate) fn compare(op: CompareOp, a: u8, b: u8) -> (r: bool)
    ensures
        r == compare_holds(op, a, b),
{
    match op {
        CompareOp::Eq => a == b,
        CompareOp::Ne => a != b,
        CompareOp::Gt => a > b,
        CompareOp::Lt => a < b,
        CompareOp::Ge => a >= b,
        CompareOp::Le => a <= b,
    }
}

/// The explanation of a trust predicate.
fn trust_reason(tags: &Vec<Tag>, op: CompareOp, level: TrustLevel) -> (r: Reason)
    ensures
        r@ == trust_reason_spec(tags@, op, level),
{
    let t = trust_level(tags.as_slice());
    let matched = compare(op, t, level.value());
    let mut description = string_of("trust ");
    let o = op.to_string();
    description.append(o.as_str());
    description.append(" ");
    let l = level.to_string();
    description.append(l.as_str());
    let mut actual = String::new();
    push_decimal(&mut actual, t as u64);
    Reason::Predicate { matched, description, actual_value: Some(actual) }
}

/// Whether a timestamp satisfies a time predicate at `now`.
pub(crate) fn time_holds(op: TimeOp, value: TimeValue, ts: i64, now: i64) -> (r: bool)
    ensures
        r == time_matches(op, value, ts, now),
{
    match (op, value) {
        (TimeOp::Within, TimeValue::Duration(d)) => ts >= now.wrapping_sub((d as i64).wrapping_mul(1_000_000)),
        (TimeOp::Before, TimeValue::Timestamp(t)) => ts < t,
        (TimeOp::After, TimeValue::Timestamp(t)) => ts > t,
        (TimeOp::Between, TimeValue::Range { start, end }) => {
            let lo = if start <= end { start } else { end };
            let hi = if start <= end { end } else { start };
            ts >= lo && ts <= hi
        },
        _ => false,
    }
}

/// The explanation of a time predicate for a timestamp at `now`.
fn time_reason(ts: i64, field: TimeField, op: TimeOp, value: TimeValue, now: i64) -> (r: Reason)
    ensures
        r@ == time_reason_spec(ts, field, op, value, now),
{
    let matched = time_holds(op, value, ts, now);
    let diff = now.wrapping_sub(ts);
    let age: i64 = if diff >= 0 {
        ((diff as u64) / 1_000_000) as i64
    } else {
        let m: u64 = if diff == i64::MIN { 9223372036854775808u64 } else { (-diff) as u64 };
        -((m / 1_000_000) as i64)
    };
    assert(age == micros_to_secs(diff));
    let mut actual = String::new();
    if age < 60 {
        push_int(&mut actual, age);
        actual.append("s ago");
    } else if age < 3600 {
        push_int(&mut actual, age / 60);
        actual.append("m ago");
    } else if age < 86400 {
        push_int(&mut actual, age / 3600);
        actual.append("h ago");
    } else {
        push_int(&mut actual, age / 86400);
        actual.append("d ago");
    }
    let mut description = field.to_string();
    description.append(" ");
    let o = op.to_string();
    description.append(o.as_str());
    description.append(" ");
    let v = value.debug_text();
    description.append(v.as_str());
    Reason::Predicate { matched, description, actual_value: Some(actual) }
}

/// The explanation of a references predicate for an object's links.
fn references_reason(links: &Vec<Link>, targets: &Vec<ObjectID>, target: &crate::query::ast::ObjectRef) -> (r: Reason)
    ensures
        r@ == references_reason_spec(links@, targets@, target@),
{
    let mut found = false;
    let mut short: Vec<String> = Vec::new();
    let mut i: usize = 0;
    while i < links.len()
        invariant
            i <= links@.len(),
            string_views(short@) == reference_prefixes(links@.take(i as int)),
            found == references_any(links@.take(i as int), targets@),
        decreases links@.len() - i,
    {
        let l = &links[i];
        proof {
            assert(links@.take(i + 1).drop_last() =~= links@.take(i as int));
        }
        let is_ref = match l.link_type {
            LinkType::References => true,
            _ => false,
        };
        if is_ref {
            match object_id_from_bytes(l.target.as_slice()) {
                Some(t) => {
                    if contains_id(targets, t) {
                        found = true;
                    }
                    let text = t.to_string();
                    short.push(string_of(text.as_str().substring_char(0, 8)));
                },
                None => {},
            }
        }
        proof {
            let p = links@.take(i + 1);
            assert(string_views(short@) =~= reference_prefixes(p));
            if references_any(links@.take(i as int), targets@) {
                let k = choose|k: int|
                    0 <= k < links@.take(i as int).len() && links@.take(i as int)[k].link_type == LinkType::References
                        && links@.take(i as int)[k].target@.len() == 16 && targets@.contains(
                        id_of_bytes(#[trigger] links@.take(i as int)[k].target@),
                    );
                assert(p[k] == links@.take(i as int)[k]);
            }
            if references_any(p, targets@) {
                let k = choose|k: int|
                    0 <= k < p.len() && p[k].link_type == LinkType::References && p[k].target@.len() == 16
                        && targets@.contains(id_of_bytes(#[trigger] p[k].target@));
                if k < i {
                    assert(links@.take(i as int)[k] == p[k]);
                }
            }
            if found && !references_any(links@.take(i as int), targets@) {
                assert(p[i as int] == links@[i as int]);
            }
        }
        i = i + 1;
    }
    assert(links@.take(i as int) =~= links@);
    let mut description = string_of("references(");
    let t = target.to_string();
    description.append(t.as_str());
    description.append(")");
    let actual = if short.len() == 0 {
        string_of("no outgoing links")
    } else {
        let mut a = string_of("links to: ");
        let j = join_strings(&short, ", ");
        a.append(j.as_str());
        a
    };
    Reason::Predicate { matched: found, description, actual_value: Some(actual) }
}

/// Explains queries for objects of a catalog.
pub struct Explainer<'a> {
    store: &'a Catalog,
}

impl<'a> Explainer<'a> {
    /// The catalog this explainer reads.
    pub closed spec fn catalog(&self) -> Catalog {
        *self.store
    }

    /// An explainer over a catalog.
    pub fn new(store: &'a Catalog) -> (r: Explainer<'a>)
        ensures
            r.catalog() == *store,
    {
        Explainer { store }
    }

    /// Explain a predicate for an object at `now`.
    fn explain_predicate(&self, object_id: &ObjectID, pred: &Predicate, now: i64) -> (r: Result<Reason, LatticeError>)
        ensures
            match predicate_reason(self.catalog(), *object_id, pred@, now) {
                Ok(v) => r matches Ok(x) && x@ == v,
                Err(f) => r matches Err(e) && failure_matches(e, f),
            },
    {
        let object = match self.store.load_object(object_id) {
            Ok(o) => o,
            Err(e) => return Err(e),
        };
        match pred {
            Predicate::Tag { path } => Ok(tag_reason(&object.tags, path)),
            Predicate::Type { mime } => Ok(type_reason(&object.tags, mime)),
            Predicate::State { state } => {
                let version = match self.store.load_version(&object.current_version) {
                    Ok(v) => v,
                    Err(e) => return Err(e),
                };
                let mut description = string_of("state:");
                let name = state.debug_name();
                description.append(name.as_str());
                Ok(Reason::Predicate {
                    matched: version.state == *state,
                    description,
                    actual_value: Some(version.state.debug_name()),
                })
            },
            Predicate::Trust { op, level } => Ok(trust_reason(&object.tags, *op, *level)),
            Predicate::Time { field, op, value } => {
                let ts = match field {
                    TimeField::Created => object.created_at,
                    TimeField::Updated => match self.store.load_version(&object.current_version) {
                        Ok(v) => v.created_at,
                        Err(_) => object.created_at,
                    },
                };
                Ok(time_reason(ts, *field, *op, *value, now))
            },
            Predicate::Ref { reference } => {
                let matched = match reference {
                    crate::query::ast::ObjectRef::Id(x) => x.0 == object_id.0,
                    crate::query::ast::ObjectRef::Alias(a) => match self.store.resolve_alias(a.as_str()) {
                        Err(e) => return Err(e),
                        Ok(Some(x)) => x.0 == object_id.0,
                        Ok(None) => false,
                    },
                    _ => false,
                };
                let mut description = string_of("ref:");
                let t = reference.to_string();
                description.append(t.as_str());
                Ok(Reason::Predicate { matched, description, actual_value: Some(object_id.to_string()) })
            },
            Predicate::References { target } => {
                let targets = match self.store.resolve_object_ref(target) {
                    Ok(t) => t,
                    Err(e) => return Err(e),
                };
                Ok(references_reason(&object.links, &targets, target))
            },
            Predicate::Closure { root } => {
                let members = match self.store.closure(root) {
                    Ok(c) => c,
                    Err(e) => return Err(e),
                };
                let mut description = string_of("closure(");
                let t = root.to_string();
                description.append(t.as_str());
                description.append(")");
                let mut actual = string_of("closure size: ");
                push_decimal(&mut actual, members.len() as u64);
                Ok(Reason::Predicate {
                    matched: contains_id(&members, *object_id),
                    description,
                    actual_value: Some(actual),
                })
            },
        }
    }

    /// Explain an expression for an object at `now`.
    fn explain_expr(&self, object_id: &ObjectID, expr: &Expr, now: i64) -> (r: Result<Reason, LatticeError>)
        ensures
            reason_outcome(r, self.catalog(), *object_id, expr@, now),
        decreases expr,
    {
        match expr {
            Expr::And(left, right) => {
                let l = match self.explain_expr(object_id, left, now) {
                    Ok(x) => x,
                    Err(e) => return Err(e),
                };
                let r = match self.explain_expr(object_id, right, now) {
                    Ok(x) => x,
                    Err(e) => return Err(e),
                };
                let matched = l.is_match() && r.is_match();
                Ok(Reason::And { matched, left: Box::new(l), right: Box::new(r) })
            },
            Expr::Or(left, right) => {
                let l = match self.explain_expr(object_id, left, now) {
                    Ok(x) => x,
                    Err(e) => return Err(e),
                };
                let r = match self.explain_expr(object_id, right, now) {
                    Ok(x) => x,
                    Err(e) => return Err(e),
                };
                let matched = l.is_match() || r.is_match();
                Ok(Reason::Or { matched, left: Box::new(l), right: Box::new(r) })
            },
            Expr::Not(inner) => {
                let x = match self.explain_expr(object_id, inner, now) {
                    Ok(x) => x,
                    Err(e) => return Err(e),
                };
                let matched = !x.is_match();
                Ok(Reason::Not { matched, inner: Box::new(x) })
            },
            Expr::Predicate(p) => self.explain_predicate(object_id, p, now),
        }
    }

    /// Explain why an object matches a query's filter, or does not, with
    /// time predicates judged at `now` (microseconds since the epoch).
    pub fn explain_at(&self, object_id: &ObjectID, query: &Query, now: i64) -> (r: Result<Explanation, LatticeError>)
        ensures
            explanation_outcome(r, self.catalog(), *object_id, query.expr@, now),
    {
        let reason = match self.explain_expr(object_id, &query.expr, now) {
            Ok(x) => x,
            Err(e) => return Err(e),
        };
        let matched = reason.is_match();
        Ok(Explanation { object_id: *object_id, matched, reason })
    }

    /// Explain why an object matches a query's filter, or does not, with
    /// time predicates judged at the current time.
    pub fn explain(&self, object_id: &ObjectID, query: &Query) -> (r: Result<Explanation, LatticeError>)
        ensures
            exists|now: i64| explanation_outcome(r, self.catalog(), *object_id, query.expr@, now),
    {
        let now = crate::model::tag::timestamp_now();
        self.explain_at(object_id, query, now)
    }
}

impl Reason {
    /// Whether this reason is a match.
    pub fn is_match(&self) -> (r: bool)
        ensures
            r == reason_matched(self@),
    {
        match self {
            Reason::And { matched, .. } => *matched,
            Reason::Or { matched, .. } => *matched,
            Reason::Not { matched, .. } => *matched,
            Reason::Predicate { matched, .. } => *matched,
        }
    }
}

} // verus!
