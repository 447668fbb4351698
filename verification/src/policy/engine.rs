//! Policy evaluation: which permissions a set of policies leaves on an
//! object, why, and whether the policies' requirements hold.

use vstd::prelude::*;
use crate::crypto::capability::{permission_level, permission_name, Permission};
use crate::error::LatticeError;
use crate::model::object::Object;
use crate::model::policy::{Policy, Requirement};
use crate::model::tag::{at_boundary, tag_matches, tag_path, Tag};
use crate::query::lexer::{decimal_chars, push_decimal};
use crate::security::{trust_level, trust_level_of};
use crate::text::{absent_before, join_strings, joined, push_char, str_eq, string_of, string_views};

verus! {

/// What a policy decision is taken on: an object, whether the operation is an
/// external share, and the names that approved the object.
#[derive(Debug, Clone)]
pub struct PolicyContext<'a> {
    pub object: &'a Object,
    pub external_share: bool,
    pub approvals: Vec<String>,
}

/// The values of the `sys:approved-by` tags, in order.
pub open spec fn approvals_of(tags: Seq<Tag>) -> Seq<Seq<char>>
    decreases tags.len(),
{
    if tags.len() == 0 {
        seq![]
    } else if tags.last().key@ == "sys:approved-by"@ {
        approvals_of(tags.drop_last()).push(tags.last().value@)
    } else {
        approvals_of(tags.drop_last())
    }
}

impl<'a> PolicyContext<'a> {
    /// The context of an object: no external share, and the approvals its
    /// `sys:approved-by` tags record.
    pub fn for_object(object: &'a Object) -> (r: PolicyContext<'a>)
        ensures
            r.object == object,
            !r.external_share,
            string_views(r.approvals@) == approvals_of(object.tags@),
    {
        let mut approvals: Vec<String> = Vec::new();
        let mut i: usize = 0;
        while i < object.tags.len()
            invariant
                i <= object.tags@.len(),
                string_views(approvals@) == approvals_of(object.tags@.take(i as int)),
            decreases object.tags@.len() - i,
        {
            assert(object.tags@.take(i + 1).drop_last() =~= object.tags@.take(i as int));
            if str_eq(object.tags[i].key.as_str(), "sys:approved-by") {
                approvals.push(string_of(object.tags[i].value.as_str()));
                assert(string_views(approvals@) =~= approvals_of(object.tags@.take(i as int)).push(object.tags@[i as int].value@));
            }
            i = i + 1;
        }
        assert(object.tags@.take(i as int) =~= object.tags@);
        PolicyContext { object, external_share: false, approvals }
    }

    /// Mark whether the operation is an external share.
    pub fn with_external_share(self, external_share: bool) -> (r: PolicyContext<'a>)
        ensures
            r.object == self.object,
            r.external_share == external_share,
            r.approvals@ == self.approvals@,
    {
        PolicyContext { external_share, ..self }
    }
}

/// The outcome of evaluating policies: the permissions left (in ascending
/// order, each once), the reasons for what was taken away or failed, and
/// whether every requirement holds.
#[derive(Debug, Clone)]
pub struct PolicyDecision {
    pub allowed: Vec<Permission>,
    pub reasons: Vec<String>,
    pub requirements_ok: bool,
}

/// The permissions in a list, as a set.
pub open spec fn perm_set(v: Seq<Permission>) -> Set<Permission> {
    v.to_set()
}

/// Every permission.
pub open spec fn all_permissions() -> Set<Permission> {
    set![Permission::Read, Permission::Comment, Permission::Write, Permission::Share, Permission::Admin]
}

/// `allowed` lists the set in ascending order, each permission once.
pub open spec fn lists_in_order(allowed: Seq<Permission>, s: Set<Permission>) -> bool {
    &&& perm_set(allowed) == s
    &&& forall|i: int, j: int| 0 <= i < j < allowed.len() ==> permission_level(allowed[i]) < permission_level(allowed[j])
}

impl PolicyDecision {
    /// Whether the decision leaves this permission.
    pub fn allows(&self, permission: Permission) -> (r: bool)
        ensures
            r == perm_set(self.allowed@).contains(permission),
    {
        let mut i: usize = 0;
        while i < self.allowed.len()
            invariant
                i <= self.allowed@.len(),
                forall|j: int| 0 <= j < i ==> self.allowed@[j] != permission,
            decreases self.allowed@.len() - i,
        {
            if self.allowed[i].level() == permission.level() {
                assert(self.allowed@[i as int] == permission);
                return true;
            }
            i = i + 1;
        }
        proof {
            if perm_set(self.allowed@).contains(permission) {
                let k = choose|k: int| 0 <= k < self.allowed@.len() && self.allowed@[k] == permission;
                assert(self.allowed@[k] != permission);
            }
        }
        false
    }
}

/// A character as it stands inside quotes: `"` and `\` get a backslash.
pub open spec fn escaped_char(c: char) -> Seq<char> {
    if c == '"' || c == '\\' { seq!['\\', c] } else { seq![c] }
}

/// The characters of a string, escaped.
pub open spec fn escaped(s: Seq<char>) -> Seq<char>
    decreases s.len(),
{
    if s.len() == 0 {
        seq![]
    } else {
        escaped(s.drop_last()) + escaped_char(s.last())
    }
}

/// A string in double quotes, with `"` and `\` escaped.
pub open spec fn quoted(s: Seq<char>) -> Seq<char> {
    seq!['"'] + escaped(s) + seq!['"']
}

/// Quoted strings separated by `, `.
pub open spec fn quoted_list(v: Seq<Seq<char>>) -> Seq<char>
    decreases v.len(),
{
    if v.len() == 0 {
        seq![]
    } else if v.len() == 1 {
        quoted(v[0])
    } else {
        quoted_list(v.drop_last()) + ", "@ + quoted(v.last())
    }
}

/// How a requirement is written in a reason.
pub open spec fn requirement_text(r: Requirement) -> Seq<char> {
    match r {
        Requirement::ApprovalFrom(v) => "ApprovalFrom(["@ + quoted_list(string_views(v@)) + "])"@,
        Requirement::MinTrust(m) => "MinTrust("@ + decimal_chars(m as nat) + ")"@,
        Requirement::RequireTag(t) => "RequireTag("@ + quoted(t@) + ")"@,
    }
}

/// Some tag lies under the pattern.
pub open spec fn has_tag_under(tags: Seq<Tag>, pattern: Seq<char>) -> bool {
    exists|i: int| 0 <= i < tags.len() && tag_matches(tags[i].key@, tags[i].value@, pattern)
}

/// A tag requirement is met by a tag whose `key:value` it names, by a tag
/// whose key it names, and, when it has no `:`, by a tag whose key starts
/// with it.
pub proof fn lemma_require_tag_met(t: String, tags: Seq<Tag>, approvals: Seq<Seq<char>>, i: int)
    requires
        0 <= i < tags.len(),
    ensures
        t@ == tag_path(tags[i].key@, tags[i].value@) ==> requirement_holds(Requirement::RequireTag(t), tags, approvals),
        t@ == tags[i].key@ ==> requirement_holds(Requirement::RequireTag(t), tags, approvals),
        absent_before(t@, ':', t@.len() as int) && t@.is_prefix_of(tags[i].key@) ==> requirement_holds(
            Requirement::RequireTag(t),
            tags,
            approvals,
        ),
{
    let k = tags[i].key@;
    let v = tags[i].value@;
    if t@ == tag_path(k, v) {
        assert(tag_path(k, v).is_prefix_of(tag_path(k, v))) by {
            assert(tag_path(k, v).subrange(0, tag_path(k, v).len() as int) =~= tag_path(k, v));
        }
        assert(at_boundary(tag_path(k, v), t@));
        assert(tag_matches(k, v, t@));
    }
    if t@ == k {
        assert(k.is_prefix_of(k)) by {
            assert(k.subrange(0, k.len() as int) =~= k);
        }
        assert(at_boundary(k, t@));
        assert(tag_matches(k, v, t@));
    }
    if absent_before(t@, ':', t@.len() as int) && t@.is_prefix_of(k) {
        assert(tag_matches(k, v, t@));
    }
}

/// A trust requirement is met exactly when the object's trust level is at
/// least the minimum; an approval requirement exactly when every named
/// approver has approved.
pub proof fn lemma_requirements_meaning(
    m: u8,
    names: Vec<String>,
    tags: Seq<Tag>,
    approvals: Seq<Seq<char>>,
)
    ensures
        requirement_holds(Requirement::MinTrust(m), tags, approvals) <==> trust_level_of(tags) >= m,
        requirement_holds(Requirement::ApprovalFrom(names), tags, approvals) <==> forall|i: int|
            0 <= i < names@.len() ==> approvals.contains(#[trigger] names@[i]@),
{
    if requirement_holds(Requirement::ApprovalFrom(names), tags, approvals) {
        assert forall|i: int| 0 <= i < names@.len() implies approvals.contains(#[trigger] names@[i]@) by {
            assert(string_views(names@)[i] == names@[i]@);
        }
    }
    if forall|i: int| 0 <= i < names@.len() ==> approvals.contains(#[trigger] names@[i]@) {
        assert forall|i: int| 0 <= i < string_views(names@).len() implies approvals.contains(
            #[trigger] string_views(names@)[i],
        ) by {
            assert(string_views(names@)[i] == names@[i]@);
        }
    }
}

/// Only a tag whose `key:value` starts with a tag requirement can meet it.
pub proof fn lemma_require_tag_sound(t: String, tags: Seq<Tag>, approvals: Seq<Seq<char>>)
    requires
        requirement_holds(Requirement::RequireTag(t), tags, approvals),
    ensures
        exists|i: int| 0 <= i < tags.len() && t@.is_prefix_of(tag_path(#[trigger] tags[i].key@, tags[i].value@)),
{
    let i = choose|i: int| 0 <= i < tags.len() && tag_matches(tags[i].key@, tags[i].value@, t@);
    let k = tags[i].key@;
    let v = tags[i].value@;
    let path = tag_path(k, v);
    if t@.is_prefix_of(k) {
        assert(path.subrange(0, t@.len() as int) =~= k.subrange(0, t@.len() as int));
    }
    assert(t@.is_prefix_of(path));
}

/// Every name is among the approvals.
pub open spec fn all_approved(names: Seq<Seq<char>>, approvals: Seq<Seq<char>>) -> bool {
    forall|i: int| 0 <= i < names.len() ==> approvals.contains(#[trigger] names[i])
}

/// Whether a requirement holds of an object with these tags and approvals.
pub open spec fn requirement_holds(r: Requirement, tags: Seq<Tag>, approvals: Seq<Seq<char>>) -> bool {
    match r {
        Requirement::ApprovalFrom(v) => all_approved(string_views(v@), approvals),
        Requirement::MinTrust(m) => trust_level_of(tags) >= m,
        Requirement::RequireTag(t) => has_tag_under(tags, t@),
    }
}

/// `policy '<name>' denies permission <perm>`
pub open spec fn deny_reason(name: Seq<char>, p: Permission) -> Seq<char> {
    "policy '"@ + name + "' denies permission "@ + permission_name(p)
}

/// `policy '<name>' blocks external sharing`
pub open spec fn share_reason(name: Seq<char>) -> Seq<char> {
    "policy '"@ + name + "' blocks external sharing"@
}

/// `policy '<name>' requirement not satisfied: <requirement>`
pub open spec fn requirement_reason(name: Seq<char>, r: Requirement) -> Seq<char> {
    "policy '"@ + name + "' requirement not satisfied: "@ + requirement_text(r)
}

/// The allowed set after a policy's allow list: intersected with it unless it
/// is empty.
pub open spec fn allow_step(allowed: Set<Permission>, allow: Seq<Permission>) -> Set<Permission> {
    if allow.len() > 0 { allowed.intersect(perm_set(allow)) } else { allowed }
}

/// The allowed set and reasons after a policy's deny list: each denied
/// permission still allowed is removed, with a reason.
pub open spec fn deny_step(st: (Set<Permission>, Seq<Seq<char>>), name: Seq<char>, deny: Seq<Permission>) -> (Set<Permission>, Seq<Seq<char>>)
    decreases deny.len(),
{
    if deny.len() == 0 {
        st
    } else {
        let prev = deny_step(st, name, deny.drop_last());
        let d = deny.last();
        if prev.0.contains(d) {
            (prev.0.remove(d), prev.1.push(deny_reason(name, d)))
        } else {
            prev
        }
    }
}

/// The reasons and requirement flag after a policy's requirements.
pub open spec fn require_step(
    st: (Seq<Seq<char>>, bool),
    name: Seq<char>,
    reqs: Seq<Requirement>,
    tags: Seq<Tag>,
    approvals: Seq<Seq<char>>,
) -> (Seq<Seq<char>>, bool)
    decreases reqs.len(),
{
    if reqs.len() == 0 {
        st
    } else {
        let prev = require_step(st, name, reqs.drop_last(), tags, approvals);
        if requirement_holds(reqs.last(), tags, approvals) {
            prev
        } else {
            (prev.0.push(requirement_reason(name, reqs.last())), false)
        }
    }
}

/// One policy applied to the state (allowed, reasons, requirements hold).
pub open spec fn policy_step(
    st: (Set<Permission>, Seq<Seq<char>>, bool),
    p: Policy,
    external_share: bool,
    tags: Seq<Tag>,
    approvals: Seq<Seq<char>>,
) -> (Set<Permission>, Seq<Seq<char>>, bool) {
    let a1 = allow_step(st.0, p.allow@);
    let d = deny_step((a1, st.1), p.name@, p.deny@);
    let s = if external_share && !p.external_share && d.0.contains(Permission::Share) {
        (d.0.remove(Permission::Share), d.1.push(share_reason(p.name@)))
    } else {
        d
    };
    let r = require_step((s.1, st.2), p.name@, p.require@, tags, approvals);
    (s.0, r.0, r.1)
}

/// The decision the policies give, in order, starting from every permission.
pub open spec fn evaluate_spec(
    policies: Seq<Policy>,
    external_share: bool,
    tags: Seq<Tag>,
    approvals: Seq<Seq<char>>,
) -> (Set<Permission>, Seq<Seq<char>>, bool)
    decreases policies.len(),
{
    if policies.len() == 0 {
        (all_permissions(), seq![], true)
    } else {
        policy_step(evaluate_spec(policies.drop_last(), external_share, tags, approvals), policies.last(), external_share, tags, approvals)
    }
}


/// Append `s` in double quotes, `"` and `\` escaped.
fn push_quoted(out: &mut String, s: &str)
    ensures
        final(out)@ == old(out)@ + quoted(s@),
{
    push_char(out, '"');
    let v = crate::text::chars_of(s);
    let mut i: usize = 0;
    while i < v.len()
        invariant
            v@ == s@,
            i <= v@.len(),
            out@ == old(out)@ + seq!['"'] + escaped(s@.take(i as int)),
        decreases v@.len() - i,
    {
        let c = v[i];
        assert(s@.take(i + 1).drop_last() =~= s@.take(i as int));
        if c == '"' || c == '\\' {
            push_char(out, '\\');
        }
        push_char(out, c);
        proof {
            assert(out@ =~= old(out)@ + seq!['"'] + escaped(s@.take(i + 1)));
        }
        i = i + 1;
    }
    assert(s@.take(i as int) =~= s@);
    push_char(out, '"');
    assert(out@ =~= old(out)@ + quoted(s@));
}

/// How a requirement is written in a reason.
fn requirement_text_of(r: &Requirement) -> (out: String)
    ensures
        out@ == requirement_text(*r),
{
    match r {
        Requirement::ApprovalFrom(v) => {
            let mut out = string_of("ApprovalFrom([");
            let mut i: usize = 0;
            while i < v.len()
                invariant
                    i <= v@.len(),
                    out@ == "ApprovalFrom(["@ + quoted_list(string_views(v@).take(i as int)),
                decreases v@.len() - i,
            {
                assert(string_views(v@).take(i + 1).drop_last() =~= string_views(v@).take(i as int));
                if i > 0 {
                    out.append(", ");
                }
                push_quoted(&mut out, v[i].as_str());
                proof {
                    if i == 0 {
                        assert(out@ =~= "ApprovalFrom(["@ + quoted_list(string_views(v@).take(1)));
                    } else {
                        assert(out@ =~= "ApprovalFrom(["@ + quoted_list(string_views(v@).take(i + 1)));
                    }
                }
                i = i + 1;
            }
            assert(string_views(v@).take(i as int) =~= string_views(v@));
            out.append("])");
            out
        },
        Requirement::MinTrust(m) => {
            let mut out = string_of("MinTrust(");
            push_decimal(&mut out, *m as u64);
            out.append(")");
            out
        },
        Requirement::RequireTag(t) => {
            let mut out = string_of("RequireTag(");
            push_quoted(&mut out, t.as_str());
            out.append(")");
            out
        },
    }
}

/// Whether some tag lies under the pattern.
fn has_required_tag(tags: &[Tag], required: &str) -> (r: bool)
    ensures
        r == has_tag_under(tags@, required@),
{
    let mut i: usize = 0;
    while i < tags.len()
        invariant
            i <= tags@.len(),
            forall|j: int| 0 <= j < i ==> !tag_matches(tags@[j].key@, tags@[j].value@, required@),
        decreases tags@.len() - i,
    {
        if tags[i].matches(required) {
            return true;
        }
        i = i + 1;
    }
    false
}

/// Whether a name is among the approvals.
fn is_approved(approvals: &Vec<String>, name: &String) -> (r: bool)
    ensures
        r == string_views(approvals@).contains(name@),
{
    let mut i: usize = 0;
    while i < approvals.len()
        invariant
            i <= approvals@.len(),
            forall|j: int| 0 <= j < i ==> approvals@[j]@ != name@,
        decreases approvals@.len() - i,
    {
        if str_eq(approvals[i].as_str(), name.as_str()) {
            assert(string_views(approvals@)[i as int] == name@);
            return true;
        }
        i = i + 1;
    }
    proof {
        if string_views(approvals@).contains(name@) {
            let k = choose|k: int| 0 <= k < string_views(approvals@).len() && string_views(approvals@)[k] == name@;
            assert(approvals@[k]@ != name@);
        }
    }
    false
}

/// Whether a requirement holds of an object's tags and approvals.
fn requirement_satisfied(req: &Requirement, tags: &[Tag], approvals: &Vec<String>) -> (r: bool)
    ensures
        r == requirement_holds(*req, tags@, string_views(approvals@)),
{
    match req {
        Requirement::ApprovalFrom(required) => {
            let ghost names = string_views(required@);
            let mut i: usize = 0;
            while i < required.len()
                invariant
                    *req == Requirement::ApprovalFrom(*required),
                    names == string_views(required@),
                    i <= required@.len(),
                    forall|j: int| 0 <= j < i ==> string_views(approvals@).contains(#[trigger] names[j]),
                decreases required@.len() - i,
            {
                if !is_approved(approvals, &required[i]) {
                    assert(names[i as int] == required@[i as int]@);
                    assert(!string_views(approvals@).contains(names[i as int]));
                    return false;
                }
                assert(names[i as int] == required@[i as int]@);
                i = i + 1;
            }
            true
        },
        Requirement::MinTrust(min) => trust_level(tags) >= *min,
        Requirement::RequireTag(tag) => has_required_tag(tags, tag.as_str()),
    }
}

/// The position of a permission among the flags (its level less one).
fn perm_index(p: Permission) -> (r: usize)
    ensures
        r == permission_level(p) - 1,
        r < 5,
{
    (p.level() - 1) as usize
}

/// The permission at a flag position.
fn perm_at(k: usize) -> (p: Permission)
    requires
        k < 5,
    ensures
        permission_level(p) == k + 1,
{
    if k == 0 {
        Permission::Read
    } else if k == 1 {
        Permission::Comment
    } else if k == 2 {
        Permission::Write
    } else if k == 3 {
        Permission::Share
    } else {
        Permission::Admin
    }
}

/// The set of permissions whose flags are up.
pub open spec fn flags_set(f: Seq<bool>) -> Set<Permission> {
    Set::new(|p: Permission| f[permission_level(p) - 1])
}

/// A permission is determined by its level.
pub proof fn lemma_level_injective(a: Permission, b: Permission)
    requires
        permission_level(a) == permission_level(b),
    ensures
        a == b,
{
}

/// `policy '<name>' ` and the rest.
fn policy_message(name: &String, rest: &str) -> (r: String)
    ensures
        r@ == "policy '"@ + name@ + rest@,
{
    let mut m = string_of("policy '");
    m.append(name.as_str());
    m.append(rest);
    m
}

/// The policy engine.
#[derive(Debug, Default, Clone, Copy)]
pub struct PolicyEngine;

impl PolicyEngine {
    /// A policy engine.
    pub fn new() -> (r: PolicyEngine) {
        PolicyEngine
    }

    /// Apply the policies in order to the full set of permissions: each
    /// non-empty allow list intersects, each deny list removes, a policy
    /// without external sharing removes `Share` from an external share, and
    /// each requirement that fails is recorded.
    pub fn evaluate(&self, policies: &[Policy], context: &PolicyContext) -> (r: PolicyDecision)
        ensures
            ({
                let e = evaluate_spec(policies@, context.external_share, context.object.tags@, string_views(context.approvals@));
                &&& lists_in_order(r.allowed@, e.0)
                &&& string_views(r.reasons@) == e.1
                &&& r.requirements_ok == e.2
            }),
    {
        let ghost tags = context.object.tags@;
        let ghost approvals = string_views(context.approvals@);
        let ghost ext = context.external_share;
        let mut flags: Vec<bool> = vec![true, true, true, true, true];
        let mut reasons: Vec<String> = Vec::new();
        let mut ok = true;
        proof {
            assert(flags_set(flags@) =~= all_permissions()) by {
                assert forall|p: Permission| all_permissions().contains(p) <==> flags_set(flags@).contains(p) by {
                    match p {
                        Permission::Read => {},
                        Permission::Comment => {},
                        Permission::Write => {},
                        Permission::Share => {},
                        Permission::Admin => {},
                    }
                }
            }
            assert(string_views(reasons@) =~= Seq::<Seq<char>>::empty());
        }
        let mut i: usize = 0;
        while i < policies.len()
            invariant
                i <= policies@.len(),
                flags@.len() == 5,
                (flags_set(flags@), string_views(reasons@), ok) == evaluate_spec(policies@.take(i as int), ext, tags, approvals),
                tags == context.object.tags@,
                approvals == string_views(context.approvals@),
                ext == context.external_share,
            decreases policies@.len() - i,
        {
            let policy = &policies[i];
            let ghost st0 = (flags_set(flags@), string_views(reasons@), ok);
            assert(policies@.take(i + 1).drop_last() =~= policies@.take(i as int));
            // The allow list.
            if policy.allow.len() > 0 {
                let mut keep: Vec<bool> = vec![false, false, false, false, false];
                let mut j: usize = 0;
                while j < policy.allow.len()
                    invariant
                        j <= policy.allow@.len(),
                        keep@.len() == 5,
                        forall|k: int| 0 <= k < 5 ==> (keep@[k] <==> exists|m: int| 0 <= m < j && permission_level(#[trigger] policy.allow@[m]) - 1 == k),
                    decreases policy.allow@.len() - j,
                {
                    let k = perm_index(policy.allow[j]);
                    keep.set(k, true);
                    proof {
                        assert forall|k2: int| 0 <= k2 < 5 implies (keep@[k2] <==> exists|m: int| 0 <= m < j + 1 && permission_level(#[trigger] policy.allow@[m]) - 1 == k2) by {
                            if k2 == k as int {
                                assert(permission_level(policy.allow@[j as int]) - 1 == k2);
                            }
                        }
                    }
                    j = j + 1;
                }
                let ghost before = flags@;
                let mut narrowed: Vec<bool> = Vec::new();
                let mut k: usize = 0;
                while k < 5
                    invariant
                        k <= 5,
                        flags@ == before,
                        before.len() == 5,
                        keep@.len() == 5,
                        narrowed@.len() == k,
                        forall|m: int| 0 <= m < k ==> #[trigger] narrowed@[m] == (before[m] && keep@[m]),
                    decreases 5 - k,
                {
                    let v = flags[k] && keep[k];
                    narrowed.push(v);
                    k = k + 1;
                }
                flags = narrowed;
                proof {
                    assert forall|p: Permission| flags_set(flags@).contains(p) <==> allow_step(flags_set(before), policy.allow@).contains(p) by {
                        let k2 = permission_level(p) - 1;
                        if keep@[k2] {
                            let m = choose|m: int| 0 <= m < policy.allow@.len() && permission_level(policy.allow@[m]) - 1 == k2;
                            lemma_level_injective(policy.allow@[m], p);
                            assert(perm_set(policy.allow@).contains(p));
                        }
                        if perm_set(policy.allow@).contains(p) {
                            let m = choose|m: int| 0 <= m < policy.allow@.len() && policy.allow@[m] == p;
                            assert(permission_level(policy.allow@[m]) - 1 == k2);
                        }
                    }
                    assert(flags_set(flags@) =~= allow_step(flags_set(before), policy.allow@));
                }
            } else {
                assert(allow_step(flags_set(flags@), policy.allow@) == flags_set(flags@));
            }
            let ghost a1 = flags_set(flags@);
            let ghost r1 = string_views(reasons@);
            assert(a1 == allow_step(st0.0, policy.allow@));
            // The deny list.
            let mut j: usize = 0;
            while j < policy.deny.len()
                invariant
                    j <= policy.deny@.len(),
                    flags@.len() == 5,
                    (flags_set(flags@), string_views(reasons@)) == deny_step((a1, r1), policy.name@, policy.deny@.take(j as int)),
                decreases policy.deny@.len() - j,
            {
                assert(policy.deny@.take(j + 1).drop_last() =~= policy.deny@.take(j as int));
                let d = policy.deny[j];
                let k = perm_index(d);
                if flags[k] {
                    let ghost before = flags@;
                    flags.set(k, false);
                    let msg_end = d.to_string();
                    let mut rest = string_of("' denies permission ");
                    rest.append(msg_end.as_str());
                    let msg = policy_message(&policy.name, rest.as_str());
                    reasons.push(msg);
                    proof {
                        assert(flags_set(before).contains(d));
                        assert forall|p: Permission| flags_set(flags@).contains(p) <==> flags_set(before).remove(d).contains(p) by {
                            if permission_level(p) == permission_level(d) {
                                lemma_level_injective(p, d);
                            }
                        }
                        assert(flags_set(flags@) =~= flags_set(before).remove(d));
                        assert(msg@ =~= deny_reason(policy.name@, d));
                        assert(string_views(reasons@) =~= deny_step((a1, r1), policy.name@, policy.deny@.take(j as int)).1.push(deny_reason(policy.name@, d)));
                    }
                } else {
                    assert(!flags_set(flags@).contains(d));
                }
                j = j + 1;
            }
            assert(policy.deny@.take(j as int) =~= policy.deny@);
            // External sharing.
            if context.external_share && !policy.external_share && flags[3] {
                let ghost before = flags@;
                let ghost rb = string_views(reasons@);
                flags.set(3, false);
                let msg = policy_message(&policy.name, "' blocks external sharing");
                reasons.push(msg);
                proof {
                    assert(flags_set(before).contains(Permission::Share));
                    assert forall|p: Permission| flags_set(flags@).contains(p) <==> flags_set(before).remove(Permission::Share).contains(p) by {
                        if permission_level(p) == 4 {
                            lemma_level_injective(p, Permission::Share);
                        }
                    }
                    assert(flags_set(flags@) =~= flags_set(before).remove(Permission::Share));
                    assert(string_views(reasons@) =~= rb.push(share_reason(policy.name@)));
                }
            }
            let ghost s1 = string_views(reasons@);
            let ghost ok0 = ok;
            // Requirements.
            let mut j: usize = 0;
            while j < policy.require.len()
                invariant
                    j <= policy.require@.len(),
                    (string_views(reasons@), ok) == require_step((s1, ok0), policy.name@, policy.require@.take(j as int), tags, approvals),
                    tags == context.object.tags@,
                    approvals == string_views(context.approvals@),
                decreases policy.require@.len() - j,
            {
                assert(policy.require@.take(j + 1).drop_last() =~= policy.require@.take(j as int));
                let req = &policy.require[j];
                if !requirement_satisfied(req, context.object.tags.as_slice(), &context.approvals) {
                    ok = false;
                    let text = requirement_text_of(req);
                    let mut rest = string_of("' requirement not satisfied: ");
                    rest.append(text.as_str());
                    let msg = policy_message(&policy.name, rest.as_str());
                    reasons.push(msg);
                    proof {
                        assert(msg@ =~= requirement_reason(policy.name@, *req));
                        assert(string_views(reasons@) =~= require_step((s1, ok0), policy.name@, policy.require@.take(j as int), tags, approvals).0.push(requirement_reason(policy.name@, *req)));
                    }
                }
                j = j + 1;
            }
            assert(policy.require@.take(j as int) =~= policy.require@);
            i = i + 1;
        }
        assert(policies@.take(i as int) =~= policies@);
        // The permissions left, in ascending order.
        let mut allowed: Vec<Permission> = Vec::new();
        let mut k: usize = 0;
        while k < 5
            invariant
                k <= 5,
                flags@.len() == 5,
                forall|m: int| 0 <= m < allowed@.len() ==> permission_level(#[trigger] allowed@[m]) - 1 < k,
                forall|m: int, n: int| 0 <= m < n < allowed@.len() ==> permission_level(allowed@[m]) < permission_level(allowed@[n]),
                forall|p: Permission| permission_level(p) - 1 < k ==> (perm_set(allowed@).contains(p) <==> flags@[permission_level(p) - 1]),
                forall|p: Permission| perm_set(allowed@).contains(p) ==> permission_level(p) - 1 < k,
            decreases 5 - k,
        {
            if flags[k] {
                let p = perm_at(k);
                let ghost before = allowed@;
                allowed.push(p);
                proof {
                    assert forall|q: Permission| perm_set(allowed@).contains(q) <==> (perm_set(before).contains(q) || q == p) by {
                        if perm_set(allowed@).contains(q) {
                            let m = choose|m: int| 0 <= m < allowed@.len() && allowed@[m] == q;
                            if m < before.len() {
                                assert(before[m] == q);
                            }
                        }
                        if perm_set(before).contains(q) {
                            let m = choose|m: int| 0 <= m < before.len() && before[m] == q;
                            assert(allowed@[m] == q);
                        }
                        if q == p {
                            assert(allowed@[before.len() as int] == q);
                        }
                    }
                    assert forall|q: Permission| permission_level(q) - 1 < k + 1 implies (perm_set(allowed@).contains(q) <==> flags@[permission_level(q) - 1]) by {
                        if permission_level(q) - 1 == k {
                            lemma_level_injective(q, p);
                            assert(allowed@[before.len() as int] == p);
                            assert(allowed@.contains(p));
                            assert(perm_set(allowed@).contains(q));
                        } else {
                            assert(q != p);
                            assert(perm_set(allowed@).contains(q) == perm_set(before).contains(q));
                        }
                    }
                    assert forall|q: Permission| perm_set(allowed@).contains(q) implies permission_level(q) - 1 < k + 1 by {
                        if q != p {
                            assert(perm_set(before).contains(q));
                        }
                    }
                    assert forall|m: int| 0 <= m < allowed@.len() implies permission_level(#[trigger] allowed@[m]) - 1 < k + 1 by {
                        if m < before.len() {
                            assert(allowed@[m] == before[m]);
                        }
                    }
                }
            } else {
                proof {
                    assert forall|q: Permission| permission_level(q) - 1 < k + 1 implies (perm_set(allowed@).contains(q) <==> flags@[permission_level(q) - 1]) by {
                        if permission_level(q) - 1 == k {
                            assert(!perm_set(allowed@).contains(q));
                        }
                    }
                }
            }
            k = k + 1;
        }
        proof {
            assert(perm_set(allowed@) =~= flags_set(flags@));
        }
        PolicyDecision { allowed, reasons, requirements_ok: ok }
    }

    /// Authorize one permission: refused (a policy violation) when some
    /// requirement fails, with all reasons joined by `; `; refused when the
    /// permission is not left, with the reasons, or a plain message when there
    /// are none.
    pub fn authorize(&self, policies: &[Policy], context: &PolicyContext, permission: Permission) -> (r: Result<(), LatticeError>)
        ensures
            ({
                let e = evaluate_spec(policies@, context.external_share, context.object.tags@, string_views(context.approvals@));
                &&& r is Ok <==> (e.2 && e.0.contains(permission))
                &&& !e.2 ==> (r matches Err(LatticeError::PolicyViolation { reason }) && reason@ == joined(e.1, "; "@))
                &&& (e.2 && !e.0.contains(permission) && e.1.len() > 0) ==> (r matches Err(LatticeError::PolicyViolation { reason })
                    && reason@ == joined(e.1, "; "@))
                &&& (e.2 && !e.0.contains(permission) && e.1.len() == 0) ==> (r matches Err(LatticeError::PolicyViolation { reason })
                    && reason@ == "permission "@ + permission_name(permission) + " not allowed by policy"@)
            }),
    {
        let decision = self.evaluate(policies, context);
        if !decision.requirements_ok {
            return Err(LatticeError::PolicyViolation { reason: join_strings(&decision.reasons, "; ") });
        }
        if !decision.allows(permission) {
            let reason = if decision.reasons.len() == 0 {
                let mut m = string_of("permission ");
                let name = permission.to_string();
                m.append(name.as_str());
                m.append(" not allowed by policy");
                m
            } else {
                join_strings(&decision.reasons, "; ")
            };
            return Err(LatticeError::PolicyViolation { reason });
        }
        Ok(())
    }
}


/// A deny list only takes permissions away, and takes away every one it names.
pub proof fn lemma_deny_step(st: (Set<Permission>, Seq<Seq<char>>), name: Seq<char>, deny: Seq<Permission>)
    ensures
        deny_step(st, name, deny).0.subset_of(st.0),
        forall|i: int| 0 <= i < deny.len() ==> !deny_step(st, name, deny).0.contains(#[trigger] deny[i]),
    decreases deny.len(),
{
    if deny.len() > 0 {
        lemma_deny_step(st, name, deny.drop_last());
        assert forall|i: int| 0 <= i < deny.len() implies !deny_step(st, name, deny).0.contains(#[trigger] deny[i]) by {
            if i < deny.len() - 1 {
                assert(deny.drop_last()[i] == deny[i]);
            }
        }
    }
}

/// One more policy never adds a permission.
pub proof fn lemma_policy_step_narrows(
    st: (Set<Permission>, Seq<Seq<char>>, bool),
    p: Policy,
    external_share: bool,
    tags: Seq<Tag>,
    approvals: Seq<Seq<char>>,
)
    ensures
        policy_step(st, p, external_share, tags, approvals).0.subset_of(st.0),
        forall|i: int| 0 <= i < p.deny@.len() ==> !policy_step(st, p, external_share, tags, approvals).0.contains(#[trigger] p.deny@[i]),
{
    let a1 = allow_step(st.0, p.allow@);
    lemma_deny_step((a1, st.1), p.name@, p.deny@);
}

/// Policies never grant access: evaluating more of the policies leaves a
/// subset of the permissions fewer of them leave.
pub proof fn lemma_policies_never_grant(
    policies: Seq<Policy>,
    k: int,
    n: int,
    external_share: bool,
    tags: Seq<Tag>,
    approvals: Seq<Seq<char>>,
)
    requires
        0 <= k <= n <= policies.len(),
    ensures
        evaluate_spec(policies.take(n), external_share, tags, approvals).0.subset_of(
            evaluate_spec(policies.take(k), external_share, tags, approvals).0,
        ),
    decreases n - k,
{
    if k < n {
        lemma_policies_never_grant(policies, k, n - 1, external_share, tags, approvals);
        assert(policies.take(n).drop_last() =~= policies.take(n - 1));
        lemma_policy_step_narrows(
            evaluate_spec(policies.take(n - 1), external_share, tags, approvals),
            policies.take(n).last(),
            external_share,
            tags,
            approvals,
        );
    }
}

/// A permission that any of the policies denies is never left.
pub proof fn lemma_denied_never_allowed(
    policies: Seq<Policy>,
    i: int,
    j: int,
    external_share: bool,
    tags: Seq<Tag>,
    approvals: Seq<Seq<char>>,
)
    requires
        0 <= i < policies.len(),
        0 <= j < policies[i].deny@.len(),
    ensures
        !evaluate_spec(policies, external_share, tags, approvals).0.contains(policies[i].deny@[j]),
{
    let d = policies[i].deny@[j];
    assert(policies.take(i + 1).drop_last() =~= policies.take(i));
    assert(policies.take(i + 1).last() == policies[i]);
    lemma_policy_step_narrows(
        evaluate_spec(policies.take(i), external_share, tags, approvals),
        policies[i],
        external_share,
        tags,
        approvals,
    );
    assert(!evaluate_spec(policies.take(i + 1), external_share, tags, approvals).0.contains(d));
    lemma_policies_never_grant(policies, i + 1, policies.len() as int, external_share, tags, approvals);
    assert(policies.take(policies.len() as int) =~= policies);
}

} // verus!
