//! The text of UCAN tokens: splitting at dots, writing the JSON of headers
//! and payloads, sealing a token with a signature, and its content
//! identifier.

use vstd::prelude::*;
use vstd::utf8::encode_utf8;
use crate::crypto::capability::{
    permission_from_lower, permission_name, Attenuation, Permission, Capability, CapabilityView, Facts, FactsView, GrantView, HeaderView, PayloadView,
    UcanHeader, UcanPayload,
};
use crate::crypto::identity::{ed25519_signature, Identity};
use crate::crypto::json::{
    base64url_decoded, base64url_encode, base64url_text, dq, json_array, json_items, json_members,
    json_object, json_quoted, json_string_of, json_u64_of, member, member_text, quote_json, read_json_array,
    read_json_object, read_json_string, read_json_u64, base64url_decode, wrap_joined,
};
use crate::query::lexer::{decimal_chars, push_decimal};
use crate::storage::content::{blake3_digest, blake3_hash, hex_encode, hex_text};
use crate::text::{chars_of, push_char, str_eq, string_of, string_views};
use crate::error::LatticeError;

verus! {

// ---- Segments ----

/// The pieces of a text between its dots (one more than it has dots).
pub open spec fn dot_segments(s: Seq<char>) -> Seq<Seq<char>>
    decreases s.len(),
{
    if s.len() == 0 {
        seq![Seq::empty()]
    } else {
        let prev = dot_segments(s.drop_last());
        if s.last() == '.' {
            prev.push(Seq::empty())
        } else {
            prev.update(prev.len() - 1, prev.last().push(s.last()))
        }
    }
}

/// A text has at least one segment.
pub proof fn lemma_segments_nonempty(s: Seq<char>)
    ensures
        dot_segments(s).len() >= 1,
    decreases s.len(),
{
    if s.len() > 0 {
        lemma_segments_nonempty(s.drop_last());
    }
}

/// A dot followed by a text without dots adds that text as a last segment.
pub proof fn lemma_segments_append(s: Seq<char>, x: Seq<char>)
    requires
        !x.contains('.'),
    ensures
        dot_segments(s + seq!['.'] + x) == dot_segments(s).push(x),
    decreases x.len(),
{
    let t = s + seq!['.'] + x;
    if x.len() == 0 {
        assert(t.drop_last() =~= s);
        assert(t.last() == '.');
        assert(x =~= Seq::<char>::empty());
        assert(dot_segments(t) == dot_segments(s).push(Seq::<char>::empty()));
    } else {
        let y = x.drop_last();
        assert(!y.contains('.')) by {
            if y.contains('.') {
                let k = choose|k: int| 0 <= k < y.len() && y[k] == '.';
                assert(x[k] == '.');
            }
        }
        assert(x.last() != '.') by {
            assert(x[x.len() - 1] == x.last());
        }
        lemma_segments_append(s, y);
        assert(t.drop_last() =~= s + seq!['.'] + y);
        assert(t.last() == x.last());
        let prev = dot_segments(s).push(y);
        assert(dot_segments(t) == prev.update(prev.len() - 1, prev.last().push(x.last())));
        assert(y.push(x.last()) =~= x);
        assert(dot_segments(t) =~= dot_segments(s).push(x));
    }
}

/// A text without dots is its one segment.
pub proof fn lemma_segments_plain(x: Seq<char>)
    requires
        !x.contains('.'),
    ensures
        dot_segments(x) == seq![x],
    decreases x.len(),
{
    if x.len() > 0 {
        let y = x.drop_last();
        assert(!y.contains('.')) by {
            if y.contains('.') {
                let k = choose|k: int| 0 <= k < y.len() && y[k] == '.';
                assert(x[k] == '.');
            }
        }
        assert(x.last() != '.') by {
            assert(x[x.len() - 1] == x.last());
        }
        lemma_segments_plain(y);
        assert(dot_segments(x) == seq![y].update(0, y.push(x.last())));
        assert(y.push(x.last()) =~= x);
        assert(dot_segments(x) =~= seq![x]);
    } else {
        assert(x =~= Seq::<char>::empty());
        assert(dot_segments(x) =~= seq![x]);
    }
}

/// The pieces of a text between its dots.
pub fn split_dots(s: &str) -> (r: Vec<String>)
    ensures
        string_views(r@) == dot_segments(s@),
{
    let chars = chars_of(s);
    let mut done: Vec<String> = Vec::new();
    let mut cur = String::new();
    let mut i: usize = 0;
    while i < chars.len()
        invariant
            i <= chars@.len(),
            chars@ == s@,
            string_views(done@).push(cur@) == dot_segments(chars@.take(i as int)),
        decreases chars@.len() - i,
    {
        let c = chars[i];
        let ghost before = string_views(done@).push(cur@);
        assert(chars@.take(i + 1).drop_last() =~= chars@.take(i as int));
        if c == '.' {
            done.push(cur);
            cur = String::new();
            assert(string_views(done@).push(cur@) =~= before.push(Seq::empty()));
        } else {
            push_char(&mut cur, c);
            assert(string_views(done@).push(cur@) =~= before.update(before.len() - 1, before.last().push(c)));
        }
        i = i + 1;
    }
    assert(chars@.take(chars@.len() as int) =~= chars@);
    done.push(cur);
    done
}

// ---- JSON of headers and payloads ----

/// A member added when the value is present.
pub open spec fn opt_member(items: Seq<Seq<char>>, key: Seq<char>, v: Option<Seq<char>>) -> Seq<Seq<char>> {
    match v {
        Some(t) => items.push(member(key, t)),
        None => items,
    }
}

/// The JSON literal of an optional text.
pub open spec fn quoted_opt(o: Option<Seq<char>>) -> Option<Seq<char>> {
    match o {
        Some(s) => Some(json_quoted(s)),
        None => None,
    }
}

/// The decimal text of an optional number.
pub open spec fn decimal_opt(o: Option<u64>) -> Option<Seq<char>> {
    match o {
        Some(n) => Some(decimal_chars(n as nat)),
        None => None,
    }
}

/// The JSON of a header.
pub open spec fn header_json(h: HeaderView) -> Seq<char> {
    json_members(
        seq![member("alg"@, json_quoted(h.alg)), member("typ"@, json_quoted(h.typ)), member("ucv"@, json_quoted(h.ucv))],
    )
}

/// The JSON of a grant; the permission is written by its lowercase name.
pub open spec fn grant_json(g: GrantView) -> Seq<char> {
    json_members(seq![member("with"@, json_quoted(g.with)), member("can"@, dq() + permission_name(g.can) + dq())])
}

/// A further fact as a JSON member.
pub open spec fn custom_member(e: (Seq<char>, Seq<char>)) -> Seq<char> {
    json_quoted(e.0) + ":"@ + e.1
}

/// The members of facts: version and device when present, then the
/// further facts.
pub open spec fn facts_members(f: FactsView) -> Seq<Seq<char>> {
    opt_member(opt_member(Seq::empty(), "lfs/version"@, quoted_opt(f.version)), "lfs/device"@, quoted_opt(f.device))
        + f.custom.map_values(|e: (Seq<char>, Seq<char>)| custom_member(e))
}

/// The JSON of facts.
pub open spec fn facts_json(f: FactsView) -> Seq<char> {
    json_members(facts_members(f))
}

/// The members of a payload, in field order; absent options and an empty
/// proof chain are left out.
pub open spec fn payload_members(p: PayloadView) -> Seq<Seq<char>> {
    let a = seq![member("iss"@, json_quoted(p.iss)), member("aud"@, json_quoted(p.aud))];
    let b = opt_member(a, "sub"@, quoted_opt(p.sub));
    let c = b.push(member("exp"@, decimal_chars(p.exp as nat)));
    let d = opt_member(c, "nbf"@, decimal_opt(p.nbf));
    let e = opt_member(d, "nnc"@, quoted_opt(p.nnc));
    let f = e.push(member("att"@, json_items(p.att.map_values(|g: GrantView| grant_json(g)))));
    let g = if p.prf.len() == 0 {
        f
    } else {
        f.push(member("prf"@, json_items(p.prf.map_values(|t: Seq<char>| json_quoted(t)))))
    };
    opt_member(
        g,
        "fct"@,
        match p.fct {
            Some(x) => Some(facts_json(x)),
            None => None,
        },
    )
}

/// The JSON of a payload.
pub open spec fn payload_json(p: PayloadView) -> Seq<char> {
    json_members(payload_members(p))
}

/// `"key":value` added to a list of members.
pub(crate) fn push_member(fields: &mut Vec<String>, key: &str, value: &str)
    ensures
        string_views(final(fields)@) == string_views(old(fields)@).push(member(key@, value@)),
{
    let m = member_text(key, value);
    fields.push(m);
    assert(string_views(fields@) =~= string_views(old(fields)@).push(member(key@, value@)));
}

/// `"key":value` added when the value is present, the value quoted or not.
pub(crate) fn push_opt_text(fields: &mut Vec<String>, key: &str, value: &Option<String>)
    ensures
        string_views(final(fields)@) == opt_member(string_views(old(fields)@), key@, quoted_opt(opt_text_of(*value))),
{
    match value {
        Some(v) => {
            let q = quote_json(v.as_str());
            push_member(fields, key, q.as_str());
        },
        None => {},
    }
}

/// The text of an optional string.
pub open spec fn opt_text_of(o: Option<String>) -> Option<Seq<char>> {
    match o {
        Some(s) => Some(s@),
        None => None,
    }
}

/// The decimal text of a number.
pub(crate) fn decimal_text(n: u64) -> (r: String)
    ensures
        r@ == decimal_chars(n as nat),
{
    let mut s = String::new();
    push_decimal(&mut s, n);
    assert(s@ =~= decimal_chars(n as nat));
    s
}

/// The JSON of a header.
pub fn header_json_text(h: &UcanHeader) -> (r: String)
    ensures
        r@ == header_json(h@),
{
    let mut fields: Vec<String> = Vec::new();
    let a = quote_json(h.alg.as_str());
    push_member(&mut fields, "alg", a.as_str());
    let t = quote_json(h.typ.as_str());
    push_member(&mut fields, "typ", t.as_str());
    let u = quote_json(h.ucv.as_str());
    push_member(&mut fields, "ucv", u.as_str());
    proof {
        reveal_strlit("{");
        reveal_strlit("}");
    }
    let r = wrap_joined("{", &fields, "}");
    assert(string_views(fields@) =~= seq![
        member("alg"@, json_quoted(h.alg@)),
        member("typ"@, json_quoted(h.typ@)),
        member("ucv"@, json_quoted(h.ucv@)),
    ]);
    r
}

/// The JSON of a grant.
pub fn grant_json_text(a: &Attenuation) -> (r: String)
    ensures
        r@ == grant_json(a@),
{
    let mut fields: Vec<String> = Vec::new();
    let w = quote_json(a.with.as_str());
    push_member(&mut fields, "with", w.as_str());
    let mut c = String::new();
    push_char(&mut c, '\u{22}');
    let name = a.can.to_string();
    c.append(name.as_str());
    push_char(&mut c, '\u{22}');
    assert(c@ =~= dq() + permission_name(a.can) + dq());
    push_member(&mut fields, "can", c.as_str());
    let r = wrap_joined("{", &fields, "}");
    assert(string_views(fields@) =~= seq![
        member("with"@, json_quoted(a.with@)),
        member("can"@, dq() + permission_name(a.can) + dq()),
    ]);
    r
}

/// The JSON of facts.
pub fn facts_json_text(f: &Facts) -> (r: String)
    ensures
        r@ == facts_json(f@),
{
    let mut fields: Vec<String> = Vec::new();
    push_opt_text(&mut fields, "lfs/version", &f.version);
    push_opt_text(&mut fields, "lfs/device", &f.device);
    let ghost head = string_views(fields@);
    assert(head == opt_member(opt_member(Seq::empty(), "lfs/version"@, quoted_opt(f@.version)), "lfs/device"@, quoted_opt(f@.device)));
    let mut i: usize = 0;
    while i < f.custom.len()
        invariant
            i <= f.custom@.len(),
            string_views(fields@) == head + f@.custom.take(i as int).map_values(
                |e: (Seq<char>, Seq<char>)| custom_member(e),
            ),
        decreases f.custom@.len() - i,
    {
        let q = quote_json(f.custom[i].0.as_str());
        let mut m = q;
        m.append(":");
        m.append(f.custom[i].1.as_str());
        let ghost before = string_views(fields@);
        fields.push(m);
        assert(f@.custom[i as int] == (f.custom@[i as int].0@, f.custom@[i as int].1@));
        assert(f@.custom.take(i + 1).map_values(|e: (Seq<char>, Seq<char>)| custom_member(e)) =~= f@.custom.take(
            i as int,
        ).map_values(|e: (Seq<char>, Seq<char>)| custom_member(e)).push(custom_member(f@.custom[i as int])));
        assert(string_views(fields@) =~= before.push(custom_member(f@.custom[i as int])));
        i = i + 1;
    }
    assert(f@.custom.take(f.custom@.len() as int) =~= f@.custom);
    wrap_joined("{", &fields, "}")
}

/// The JSON of a payload.
pub fn payload_json_text(p: &UcanPayload) -> (r: String)
    ensures
        r@ == payload_json(p@),
{
    let mut fields: Vec<String> = Vec::new();
    let iss = quote_json(p.iss.as_str());
    push_member(&mut fields, "iss", iss.as_str());
    let aud = quote_json(p.aud.as_str());
    push_member(&mut fields, "aud", aud.as_str());
    push_opt_text(&mut fields, "sub", &p.sub);
    let exp = decimal_text(p.exp);
    push_member(&mut fields, "exp", exp.as_str());
    match p.nbf {
        Some(n) => {
            let t = decimal_text(n);
            push_member(&mut fields, "nbf", t.as_str());
        },
        None => {},
    }
    push_opt_text(&mut fields, "nnc", &p.nnc);
    let ghost pv = p@;
    let mut grants: Vec<String> = Vec::new();
    let mut i: usize = 0;
    while i < p.att.len()
        invariant
            i <= p.att@.len(),
            pv == p@,
            string_views(grants@) == pv.att.take(i as int).map_values(|g: GrantView| grant_json(g)),
        decreases p.att@.len() - i,
    {
        let g = grant_json_text(&p.att[i]);
        let ghost before = string_views(grants@);
        grants.push(g);
        assert(pv.att[i as int] == p.att@[i as int]@);
        assert(pv.att.take(i + 1).map_values(|g: GrantView| grant_json(g)) =~= before.push(grant_json(pv.att[i as int])));
        assert(string_views(grants@) =~= before.push(grant_json(pv.att[i as int])));
        i = i + 1;
    }
    assert(pv.att.take(p.att@.len() as int) =~= pv.att);
    let att = wrap_joined("[", &grants, "]");
    push_member(&mut fields, "att", att.as_str());
    if p.prf.len() > 0 {
        let mut proofs: Vec<String> = Vec::new();
        let mut j: usize = 0;
        while j < p.prf.len()
            invariant
                j <= p.prf@.len(),
                pv == p@,
                string_views(proofs@) == pv.prf.take(j as int).map_values(|t: Seq<char>| json_quoted(t)),
            decreases p.prf@.len() - j,
        {
            let q = quote_json(p.prf[j].as_str());
            let ghost before = string_views(proofs@);
            proofs.push(q);
            assert(pv.prf[j as int] == p.prf@[j as int]@);
            assert(pv.prf.take(j + 1).map_values(|t: Seq<char>| json_quoted(t)) =~= before.push(
                json_quoted(pv.prf[j as int]),
            ));
            assert(string_views(proofs@) =~= before.push(json_quoted(pv.prf[j as int])));
            j = j + 1;
        }
        assert(pv.prf.take(p.prf@.len() as int) =~= pv.prf);
        let prf = wrap_joined("[", &proofs, "]");
        push_member(&mut fields, "prf", prf.as_str());
    }
    match &p.fct {
        Some(f) => {
            let t = facts_json_text(f);
            push_member(&mut fields, "fct", t.as_str());
        },
        None => {},
    }
    proof {
        reveal_strlit("[");
        reveal_strlit("]");
        assert(string_views(fields@) =~= payload_members(p@));
    }
    wrap_joined("{", &fields, "}")
}

/// The JSON of a revocation's signed fields; the reason is left out when
/// absent.
pub open spec fn revocation_json(cid: Seq<char>, at: u64, by: Seq<char>, reason: Option<Seq<char>>) -> Seq<char> {
    json_members(
        opt_member(
            seq![
                member("ucan_cid"@, json_quoted(cid)),
                member("revoked_at"@, decimal_chars(at as nat)),
                member("revoked_by"@, json_quoted(by)),
            ],
            "reason"@,
            quoted_opt(reason),
        ),
    )
}

/// The JSON of a revocation's signed fields.
pub fn revocation_json_text(cid: &str, at: u64, by: &str, reason: &Option<String>) -> (r: String)
    ensures
        r@ == revocation_json(cid@, at, by@, opt_text_of(*reason)),
{
    let mut fields: Vec<String> = Vec::new();
    let c = quote_json(cid);
    push_member(&mut fields, "ucan_cid", c.as_str());
    let a = decimal_text(at);
    push_member(&mut fields, "revoked_at", a.as_str());
    let b = quote_json(by);
    push_member(&mut fields, "revoked_by", b.as_str());
    let ghost base = string_views(fields@);
    assert(base =~= seq![
        member("ucan_cid"@, json_quoted(cid@)),
        member("revoked_at"@, decimal_chars(at as nat)),
        member("revoked_by"@, json_quoted(by@)),
    ]);
    push_opt_text(&mut fields, "reason", reason);
    wrap_joined("{", &fields, "}")
}

// ---- Sealing ----

/// The signed part of a token: the base64url of the header's JSON, a dot,
/// and the base64url of the payload's JSON.
pub open spec fn signing_text(h: HeaderView, p: PayloadView) -> Seq<char> {
    base64url_text(encode_utf8(header_json(h))) + "."@ + base64url_text(encode_utf8(payload_json(p)))
}

/// A token: the signed part, a dot, and the base64url of the signature.
pub open spec fn sealed_token(h: HeaderView, p: PayloadView, sig: Seq<u8>) -> Seq<char> {
    signing_text(h, p) + "."@ + base64url_text(sig)
}

/// The content identifier of a token: the hex of the BLAKE3 hash of its
/// bytes.
pub open spec fn cid_text(token: Seq<char>) -> Seq<char> {
    hex_text(blake3_digest(encode_utf8(token)))
}

/// Seal a header and payload into a token signed by the issuer.
pub(crate) fn seal(header: UcanHeader, payload: UcanPayload, issuer: &Identity) -> (r: Capability)
    ensures
        r.header@ == header@,
        r.payload@ == payload@,
        r.signature@ == ed25519_signature(issuer.secret(), encode_utf8(signing_text(header@, payload@))),
        r.token@ == sealed_token(header@, payload@, r.signature@),
        dot_segments(r.token@) == seq![
            base64url_text(encode_utf8(header_json(header@))),
            base64url_text(encode_utf8(payload_json(payload@))),
            base64url_text(r.signature@),
        ],
        base64url_decoded(dot_segments(r.token@)[0]) == Ok::<Seq<u8>, Seq<char>>(encode_utf8(header_json(header@))),
        base64url_decoded(dot_segments(r.token@)[1]) == Ok::<Seq<u8>, Seq<char>>(encode_utf8(payload_json(payload@))),
        base64url_decoded(dot_segments(r.token@)[2]) == Ok::<Seq<u8>, Seq<char>>(r.signature@),
{
    let hj = header_json_text(&header);
    let pj = payload_json_text(&payload);
    let hb = base64url_encode(hj.as_str().as_bytes());
    let pb = base64url_encode(pj.as_str().as_bytes());
    let mut input = hb.clone();
    input.append(".");
    input.append(pb.as_str());
    proof {
        reveal_strlit(".");
        assert(input@ =~= signing_text(header@, payload@));
    }
    let sig = issuer.sign(input.as_str().as_bytes());
    let mut signature: Vec<u8> = Vec::new();
    let mut i: usize = 0;
    while i < 64
        invariant
            i <= 64,
            signature@ == sig@.take(i as int),
        decreases 64 - i,
    {
        signature.push(sig[i]);
        assert(signature@ =~= sig@.take(i + 1));
        i = i + 1;
    }
    assert(sig@.take(64) =~= sig@);
    let sb = base64url_encode(signature.as_slice());
    let mut token = input;
    token.append(".");
    token.append(sb.as_str());
    proof {
        lemma_segments_plain(hb@);
        lemma_segments_append(hb@, pb@);
        assert(hb@ + "."@ + pb@ =~= hb@ + seq!['.'] + pb@);
        lemma_segments_append(hb@ + "."@ + pb@, sb@);
        assert(token@ =~= (hb@ + "."@ + pb@) + seq!['.'] + sb@);
    }
    Capability { token, header, payload, signature }
}

/// The content identifier of a token.
pub(crate) fn token_cid(token: &str) -> (r: String)
    ensures
        r@ == cid_text(token@),
{
    let h = blake3_hash(token.as_bytes());
    hex_encode(&h)
}


// ---- Reading headers and payloads ----

/// Entries as text.
pub open spec fn entries_view(es: Seq<(String, String)>) -> Seq<(Seq<char>, Seq<char>)> {
    es.map_values(|e: (String, String)| (e.0@, e.1@))
}

/// The value of the first entry with a key.
pub open spec fn entry_value(es: Seq<(Seq<char>, Seq<char>)>, key: Seq<char>) -> Option<Seq<char>>
    decreases es.len(),
{
    if es.len() == 0 {
        None
    } else if es[0].0 == key {
        Some(es[0].1)
    } else {
        entry_value(es.skip(1), key)
    }
}

/// The message for a missing field.
pub open spec fn missing_field(key: Seq<char>) -> Seq<char> {
    "missing field `"@ + key + "`"@
}

/// A field that must hold a string.
pub open spec fn required_string(es: Seq<(Seq<char>, Seq<char>)>, key: Seq<char>) -> Result<Seq<char>, Seq<char>> {
    match entry_value(es, key) {
        None => Err(missing_field(key)),
        Some(t) => json_string_of(t),
    }
}

/// A field that may hold a string; absent or `null` is none.
pub open spec fn optional_string(es: Seq<(Seq<char>, Seq<char>)>, key: Seq<char>) -> Result<Option<Seq<char>>, Seq<char>> {
    match entry_value(es, key) {
        None => Ok(None),
        Some(t) => if t == "null"@ {
            Ok(None)
        } else {
            match json_string_of(t) {
                Ok(v) => Ok(Some(v)),
                Err(m) => Err(m),
            }
        },
    }
}

/// A field that must hold an unsigned number.
pub open spec fn required_u64(es: Seq<(Seq<char>, Seq<char>)>, key: Seq<char>) -> Result<u64, Seq<char>> {
    match entry_value(es, key) {
        None => Err(missing_field(key)),
        Some(t) => json_u64_of(t),
    }
}

/// A field that may hold an unsigned number; absent or `null` is none.
pub open spec fn optional_u64(es: Seq<(Seq<char>, Seq<char>)>, key: Seq<char>) -> Result<Option<u64>, Seq<char>> {
    match entry_value(es, key) {
        None => Ok(None),
        Some(t) => if t == "null"@ {
            Ok(None)
        } else {
            match json_u64_of(t) {
                Ok(v) => Ok(Some(v)),
                Err(m) => Err(m),
            }
        },
    }
}

/// The message for a permission name that is none of the five.
pub open spec fn unknown_permission(name: Seq<char>) -> Seq<char> {
    "unknown variant `"@ + name + "`, expected one of `read`, `comment`, `write`, `share`, `admin`"@
}

/// A grant read from its JSON.
pub open spec fn grant_of(item: Seq<char>) -> Result<GrantView, Seq<char>> {
    match json_object(encode_utf8(item)) {
        Err(m) => Err(m),
        Ok(es) => match required_string(es, "with"@) {
            Err(m) => Err(m),
            Ok(w) => match required_string(es, "can"@) {
                Err(m) => Err(m),
                Ok(c) => match permission_from_lower(c) {
                    None => Err(unknown_permission(c)),
                    Some(p) => Ok(GrantView { with: w, can: p }),
                },
            },
        },
    }
}

/// Grants read from their JSON, the first failure reported.
pub open spec fn grants_of(items: Seq<Seq<char>>) -> Result<Seq<GrantView>, Seq<char>>
    decreases items.len(),
{
    if items.len() == 0 {
        Ok(Seq::empty())
    } else {
        match grants_of(items.drop_last()) {
            Err(m) => Err(m),
            Ok(gs) => match grant_of(items.last()) {
                Err(m) => Err(m),
                Ok(g) => Ok(gs.push(g)),
            },
        }
    }
}

/// Strings read from their JSON, the first failure reported.
pub open spec fn strings_of(items: Seq<Seq<char>>) -> Result<Seq<Seq<char>>, Seq<char>>
    decreases items.len(),
{
    if items.len() == 0 {
        Ok(Seq::empty())
    } else {
        match strings_of(items.drop_last()) {
            Err(m) => Err(m),
            Ok(ss) => match json_string_of(items.last()) {
                Err(m) => Err(m),
                Ok(t) => Ok(ss.push(t)),
            },
        }
    }
}

/// Whether a key is one of the named facts.
pub open spec fn is_named_fact(key: Seq<char>) -> bool {
    key == "lfs/version"@ || key == "lfs/device"@
}

/// The entries that are no named fact, in order.
pub open spec fn further_facts(es: Seq<(Seq<char>, Seq<char>)>) -> Seq<(Seq<char>, Seq<char>)>
    decreases es.len(),
{
    if es.len() == 0 {
        Seq::empty()
    } else if is_named_fact(es.last().0) {
        further_facts(es.drop_last())
    } else {
        further_facts(es.drop_last()).push(es.last())
    }
}

/// Facts read from the JSON of a field; absent or `null` is none.
pub open spec fn facts_of(field: Option<Seq<char>>) -> Result<Option<FactsView>, Seq<char>> {
    match field {
        None => Ok(None),
        Some(t) => if t == "null"@ {
            Ok(None)
        } else {
            match json_object(encode_utf8(t)) {
                Err(m) => Err(m),
                Ok(es) => match optional_string(es, "lfs/version"@) {
                    Err(m) => Err(m),
                    Ok(v) => match optional_string(es, "lfs/device"@) {
                        Err(m) => Err(m),
                        Ok(d) => Ok(Some(FactsView { version: v, device: d, custom: further_facts(es) })),
                    },
                },
            }
        },
    }
}

/// A header read from its JSON bytes.
pub open spec fn header_of(b: Seq<u8>) -> Result<HeaderView, Seq<char>> {
    match json_object(b) {
        Err(m) => Err(m),
        Ok(es) => match required_string(es, "alg"@) {
            Err(m) => Err(m),
            Ok(alg) => match required_string(es, "typ"@) {
                Err(m) => Err(m),
                Ok(typ) => match required_string(es, "ucv"@) {
                    Err(m) => Err(m),
                    Ok(ucv) => Ok(HeaderView { alg, typ, ucv }),
                },
            },
        },
    }
}

/// The grants of a payload's entries.
pub open spec fn payload_grants(es: Seq<(Seq<char>, Seq<char>)>) -> Result<Seq<GrantView>, Seq<char>> {
    match entry_value(es, "att"@) {
        None => Err(missing_field("att"@)),
        Some(t) => match json_array(t) {
            Err(m) => Err(m),
            Ok(items) => grants_of(items),
        },
    }
}

/// The proof chain of a payload's entries; absent is empty.
pub open spec fn payload_proofs(es: Seq<(Seq<char>, Seq<char>)>) -> Result<Seq<Seq<char>>, Seq<char>> {
    match entry_value(es, "prf"@) {
        None => Ok(Seq::empty()),
        Some(t) => match json_array(t) {
            Err(m) => Err(m),
            Ok(items) => strings_of(items),
        },
    }
}

/// A payload read from its entries.
pub open spec fn payload_of_entries(es: Seq<(Seq<char>, Seq<char>)>) -> Result<PayloadView, Seq<char>> {
    match required_string(es, "iss"@) {
        Err(m) => Err(m),
        Ok(iss) => match required_string(es, "aud"@) {
            Err(m) => Err(m),
            Ok(aud) => match optional_string(es, "sub"@) {
                Err(m) => Err(m),
                Ok(sub) => match required_u64(es, "exp"@) {
                    Err(m) => Err(m),
                    Ok(exp) => match optional_u64(es, "nbf"@) {
                        Err(m) => Err(m),
                        Ok(nbf) => match optional_string(es, "nnc"@) {
                            Err(m) => Err(m),
                            Ok(nnc) => match payload_grants(es) {
                                Err(m) => Err(m),
                                Ok(att) => match payload_proofs(es) {
                                    Err(m) => Err(m),
                                    Ok(prf) => match facts_of(entry_value(es, "fct"@)) {
                                        Err(m) => Err(m),
                                        Ok(fct) => Ok(PayloadView { iss, aud, sub, exp, nbf, nnc, att, prf, fct }),
                                    },
                                },
                            },
                        },
                    },
                },
            },
        },
    }
}

/// A payload read from its JSON bytes.
pub open spec fn payload_of(b: Seq<u8>) -> Result<PayloadView, Seq<char>> {
    match json_object(b) {
        Err(m) => Err(m),
        Ok(es) => payload_of_entries(es),
    }
}

/// A capability read from its token, or the message of why it cannot be:
/// three dot-separated base64url parts (header JSON, payload JSON,
/// signature), decoded in turn and then read.
pub open spec fn capability_of(token: Seq<char>) -> Result<CapabilityView, Seq<char>> {
    let parts = dot_segments(token);
    if parts.len() != 3 {
        Err("Invalid UCAN format: expected 3 parts"@)
    } else {
        match base64url_decoded(parts[0]) {
            Err(m) => Err("Header decode: "@ + m),
            Ok(hb) => match base64url_decoded(parts[1]) {
                Err(m) => Err("Payload decode: "@ + m),
                Ok(pb) => match base64url_decoded(parts[2]) {
                    Err(m) => Err("Signature decode: "@ + m),
                    Ok(sig) => match header_of(hb) {
                        Err(m) => Err("Header parse: "@ + m),
                        Ok(h) => match payload_of(pb) {
                            Err(m) => Err("Payload parse: "@ + m),
                            Ok(p) => Ok(CapabilityView { token, header: h, payload: p, signature: sig }),
                        },
                    },
                },
            },
        }
    }
}


/// A failure of a prefix of a list is the failure of the whole list.
pub proof fn lemma_grants_prefix_failure(items: Seq<Seq<char>>, k: int)
    requires
        0 <= k <= items.len(),
        grants_of(items.take(k)) is Err,
    ensures
        grants_of(items) == grants_of(items.take(k)),
    decreases items.len() - k,
{
    if k == items.len() {
        assert(items.take(k) =~= items);
    } else {
        assert(items.take(k + 1).drop_last() =~= items.take(k));
        lemma_grants_prefix_failure(items, k + 1);
    }
}

/// A failure of a prefix of a list is the failure of the whole list.
pub proof fn lemma_strings_prefix_failure(items: Seq<Seq<char>>, k: int)
    requires
        0 <= k <= items.len(),
        strings_of(items.take(k)) is Err,
    ensures
        strings_of(items) == strings_of(items.take(k)),
    decreases items.len() - k,
{
    if k == items.len() {
        assert(items.take(k) =~= items);
    } else {
        assert(items.take(k + 1).drop_last() =~= items.take(k));
        lemma_strings_prefix_failure(items, k + 1);
    }
}

/// The entries of a JSON object document.
fn object_entries(b: &[u8]) -> (r: Result<Vec<(String, String)>, String>)
    ensures
        match json_object(b@) {
            Ok(es) => r matches Ok(v) && entries_view(v@) == es,
            Err(m) => r matches Err(e) && e@ == m,
        },
{
    let r = read_json_object(b);
    match &r {
        Ok(v) => {
            assert(entries_view(v@) =~= json_object(b@)->Ok_0);
        },
        Err(_) => {},
    }
    r
}

/// The items of a JSON array document, as text.
fn array_items(t: &str) -> (r: Result<Vec<String>, String>)
    ensures
        match json_array(t@) {
            Ok(items) => r matches Ok(v) && string_views(v@) == items,
            Err(m) => r matches Err(e) && e@ == m,
        },
{
    let r = read_json_array(t);
    match &r {
        Ok(v) => {
            assert(string_views(v@) =~= json_array(t@)->Ok_0);
        },
        Err(_) => {},
    }
    r
}

/// The value of the first entry with a key.
fn lookup<'a>(es: &'a Vec<(String, String)>, key: &str) -> (r: Option<&'a String>)
    ensures
        match entry_value(entries_view(es@), key@) {
            None => r is None,
            Some(t) => r matches Some(s) && s@ == t,
        },
{
    let ghost all = entries_view(es@);
    assert(all.skip(0) =~= all);
    let mut i: usize = 0;
    while i < es.len()
        invariant
            i <= es@.len(),
            all == entries_view(es@),
            entry_value(all, key@) == entry_value(all.skip(i as int), key@),
        decreases es@.len() - i,
    {
        assert(all.skip(i as int)[0] == (es@[i as int].0@, es@[i as int].1@));
        if str_eq(es[i].0.as_str(), key) {
            return Some(&es[i].1);
        }
        assert(all.skip(i as int).skip(1) =~= all.skip(i + 1));
        i = i + 1;
    }
    assert(all.skip(i as int).len() == 0);
    None
}

/// The message for a missing field.
fn missing_message(key: &str) -> (r: String)
    ensures
        r@ == missing_field(key@),
{
    let mut m = string_of("missing field `");
    m.append(key);
    m.append("`");
    m
}

/// A field that must hold a string.
fn field_string(es: &Vec<(String, String)>, key: &str) -> (r: Result<String, String>)
    ensures
        match required_string(entries_view(es@), key@) {
            Ok(v) => r matches Ok(s) && s@ == v,
            Err(m) => r matches Err(e) && e@ == m,
        },
{
    match lookup(es, key) {
        None => Err(missing_message(key)),
        Some(t) => read_json_string(t.as_str()),
    }
}

/// A field that may hold a string.
fn field_opt_string(es: &Vec<(String, String)>, key: &str) -> (r: Result<Option<String>, String>)
    ensures
        match optional_string(entries_view(es@), key@) {
            Ok(v) => r matches Ok(s) && opt_text_of(s) == v,
            Err(m) => r matches Err(e) && e@ == m,
        },
{
    match lookup(es, key) {
        None => Ok(None),
        Some(t) => {
            proof {
                reveal_strlit("null");
            }
            if str_eq(t.as_str(), "null") {
                Ok(None)
            } else {
                match read_json_string(t.as_str()) {
                    Ok(v) => Ok(Some(v)),
                    Err(e) => Err(e),
                }
            }
        },
    }
}

/// A field that must hold an unsigned number.
fn field_u64(es: &Vec<(String, String)>, key: &str) -> (r: Result<u64, String>)
    ensures
        match required_u64(entries_view(es@), key@) {
            Ok(v) => r == Ok::<u64, String>(v),
            Err(m) => r matches Err(e) && e@ == m,
        },
{
    match lookup(es, key) {
        None => Err(missing_message(key)),
        Some(t) => read_json_u64(t.as_str()),
    }
}

/// A field that may hold an unsigned number.
fn field_opt_u64(es: &Vec<(String, String)>, key: &str) -> (r: Result<Option<u64>, String>)
    ensures
        match optional_u64(entries_view(es@), key@) {
            Ok(v) => r == Ok::<Option<u64>, String>(v),
            Err(m) => r matches Err(e) && e@ == m,
        },
{
    match lookup(es, key) {
        None => Ok(None),
        Some(t) => {
            if str_eq(t.as_str(), "null") {
                Ok(None)
            } else {
                match read_json_u64(t.as_str()) {
                    Ok(v) => Ok(Some(v)),
                    Err(e) => Err(e),
                }
            }
        },
    }
}

/// The permission with exactly this name.
fn permission_named(c: &str) -> (r: Option<Permission>)
    ensures
        r == permission_from_lower(c@),
{
    if str_eq(c, "read") {
        Some(Permission::Read)
    } else if str_eq(c, "comment") {
        Some(Permission::Comment)
    } else if str_eq(c, "write") {
        Some(Permission::Write)
    } else if str_eq(c, "share") {
        Some(Permission::Share)
    } else if str_eq(c, "admin") {
        Some(Permission::Admin)
    } else {
        None
    }
}

/// A grant read from its JSON.
fn read_grant(item: &str) -> (r: Result<Attenuation, String>)
    ensures
        match grant_of(item@) {
            Ok(g) => r matches Ok(a) && a@ == g,
            Err(m) => r matches Err(e) && e@ == m,
        },
{
    let es = match object_entries(item.as_bytes()) {
        Ok(es) => es,
        Err(e) => return Err(e),
    };
    let with = match field_string(&es, "with") {
        Ok(w) => w,
        Err(e) => return Err(e),
    };
    let c = match field_string(&es, "can") {
        Ok(c) => c,
        Err(e) => return Err(e),
    };
    match permission_named(c.as_str()) {
        Some(p) => Ok(Attenuation { with, can: p }),
        None => {
            let mut m = string_of("unknown variant `");
            m.append(c.as_str());
            m.append("`, expected one of `read`, `comment`, `write`, `share`, `admin`");
            Err(m)
        },
    }
}

/// Grants read from their JSON.
fn read_grants(items: &Vec<String>) -> (r: Result<Vec<Attenuation>, String>)
    ensures
        match grants_of(string_views(items@)) {
            Ok(gs) => r matches Ok(v) && v@.map_values(|a: Attenuation| a@) == gs,
            Err(m) => r matches Err(e) && e@ == m,
        },
{
    let ghost views = string_views(items@);
    let mut out: Vec<Attenuation> = Vec::new();
    assert(views.take(0) =~= Seq::<Seq<char>>::empty());
    assert(out@.map_values(|a: Attenuation| a@) =~= Seq::<GrantView>::empty());
    let mut i: usize = 0;
    while i < items.len()
        invariant
            i <= items@.len(),
            views == string_views(items@),
            grants_of(views.take(i as int)) == Ok::<Seq<GrantView>, Seq<char>>(
                out@.map_values(|a: Attenuation| a@),
            ),
        decreases items@.len() - i,
    {
        assert(views.take(i + 1).drop_last() =~= views.take(i as int));
        assert(views.take(i + 1).last() == items@[i as int]@);
        match read_grant(items[i].as_str()) {
            Ok(a) => {
                let ghost before = out@.map_values(|a: Attenuation| a@);
                let ghost av = a@;
                out.push(a);
                assert(out@.map_values(|a: Attenuation| a@) =~= before.push(av));
            },
            Err(e) => {
                proof {
                    lemma_grants_prefix_failure(views, i + 1);
                }
                return Err(e);
            },
        }
        i = i + 1;
    }
    assert(views.take(items@.len() as int) =~= views);
    Ok(out)
}

/// Strings read from their JSON.
fn read_strings(items: &Vec<String>) -> (r: Result<Vec<String>, String>)
    ensures
        match strings_of(string_views(items@)) {
            Ok(ss) => r matches Ok(v) && string_views(v@) == ss,
            Err(m) => r matches Err(e) && e@ == m,
        },
{
    let ghost views = string_views(items@);
    let mut out: Vec<String> = Vec::new();
    assert(views.take(0) =~= Seq::<Seq<char>>::empty());
    assert(string_views(out@) =~= Seq::<Seq<char>>::empty());
    let mut i: usize = 0;
    while i < items.len()
        invariant
            i <= items@.len(),
            views == string_views(items@),
            strings_of(views.take(i as int)) == Ok::<Seq<Seq<char>>, Seq<char>>(string_views(out@)),
        decreases items@.len() - i,
    {
        assert(views.take(i + 1).drop_last() =~= views.take(i as int));
        assert(views.take(i + 1).last() == items@[i as int]@);
        match read_json_string(items[i].as_str()) {
            Ok(t) => {
                let ghost before = string_views(out@);
                out.push(t);
                assert(string_views(out@) =~= before.push(out@.last()@));
            },
            Err(e) => {
                proof {
                    lemma_strings_prefix_failure(views, i + 1);
                }
                return Err(e);
            },
        }
        i = i + 1;
    }
    assert(views.take(items@.len() as int) =~= views);
    Ok(out)
}

/// Whether a key is one of the named facts.
fn named_fact(key: &str) -> (r: bool)
    ensures
        r == is_named_fact(key@),
{
    str_eq(key, "lfs/version") || str_eq(key, "lfs/device")
}

/// Facts read from the JSON of a field.
fn read_facts(field: Option<&String>) -> (r: Result<Option<Facts>, String>)
    ensures
        match facts_of(
            match field {
                Some(t) => Some(t@),
                None => None,
            },
        ) {
            Ok(f) => r matches Ok(x) && (match x {
                Some(y) => Some(y@),
                None => None,
            }) == f,
            Err(m) => r matches Err(e) && e@ == m,
        },
{
    let t = match field {
        None => return Ok(None),
        Some(t) => t,
    };
    if str_eq(t.as_str(), "null") {
        return Ok(None);
    }
    let es = match object_entries(t.as_str().as_bytes()) {
        Ok(es) => es,
        Err(e) => return Err(e),
    };
    let version = match field_opt_string(&es, "lfs/version") {
        Ok(v) => v,
        Err(e) => return Err(e),
    };
    let device = match field_opt_string(&es, "lfs/device") {
        Ok(d) => d,
        Err(e) => return Err(e),
    };
    let ghost all = entries_view(es@);
    let mut custom: Vec<(String, String)> = Vec::new();
    let mut i: usize = 0;
    while i < es.len()
        invariant
            i <= es@.len(),
            all == entries_view(es@),
            entries_view(custom@) == further_facts(all.take(i as int)),
        decreases es@.len() - i,
    {
        assert(all.take(i + 1).drop_last() =~= all.take(i as int));
        assert(all.take(i + 1).last() == (es@[i as int].0@, es@[i as int].1@));
        if !named_fact(es[i].0.as_str()) {
            let ghost before = entries_view(custom@);
            custom.push((es[i].0.clone(), es[i].1.clone()));
            assert(entries_view(custom@) =~= before.push((es@[i as int].0@, es@[i as int].1@)));
        }
        i = i + 1;
    }
    assert(all.take(es@.len() as int) =~= all);
    let f = Facts { version, device, custom };
    assert(f@.custom =~= further_facts(all));
    Ok(Some(f))
}

/// A header read from its JSON bytes.
fn read_header(b: &[u8]) -> (r: Result<UcanHeader, String>)
    ensures
        match header_of(b@) {
            Ok(h) => r matches Ok(x) && x@ == h,
            Err(m) => r matches Err(e) && e@ == m,
        },
{
    let es = match object_entries(b) {
        Ok(es) => es,
        Err(e) => return Err(e),
    };
    let alg = match field_string(&es, "alg") {
        Ok(v) => v,
        Err(e) => return Err(e),
    };
    let typ = match field_string(&es, "typ") {
        Ok(v) => v,
        Err(e) => return Err(e),
    };
    let ucv = match field_string(&es, "ucv") {
        Ok(v) => v,
        Err(e) => return Err(e),
    };
    Ok(UcanHeader { alg, typ, ucv })
}

/// A payload read from its JSON bytes.
fn read_payload(b: &[u8]) -> (r: Result<UcanPayload, String>)
    ensures
        match payload_of(b@) {
            Ok(p) => r matches Ok(x) && x@ == p,
            Err(m) => r matches Err(e) && e@ == m,
        },
{
    let es = match object_entries(b) {
        Ok(es) => es,
        Err(e) => return Err(e),
    };
    let iss = match field_string(&es, "iss") {
        Ok(v) => v,
        Err(e) => return Err(e),
    };
    let aud = match field_string(&es, "aud") {
        Ok(v) => v,
        Err(e) => return Err(e),
    };
    let sub = match field_opt_string(&es, "sub") {
        Ok(v) => v,
        Err(e) => return Err(e),
    };
    let exp = match field_u64(&es, "exp") {
        Ok(v) => v,
        Err(e) => return Err(e),
    };
    let nbf = match field_opt_u64(&es, "nbf") {
        Ok(v) => v,
        Err(e) => return Err(e),
    };
    let nnc = match field_opt_string(&es, "nnc") {
        Ok(v) => v,
        Err(e) => return Err(e),
    };
    let att = match lookup(&es, "att") {
        None => return Err(missing_message("att")),
        Some(t) => match array_items(t.as_str()) {
            Err(e) => return Err(e),
            Ok(items) => match read_grants(&items) {
                Err(e) => return Err(e),
                Ok(a) => a,
            },
        },
    };
    let prf = match lookup(&es, "prf") {
        None => Vec::new(),
        Some(t) => match array_items(t.as_str()) {
            Err(e) => return Err(e),
            Ok(items) => match read_strings(&items) {
                Err(e) => return Err(e),
                Ok(v) => v,
            },
        },
    };
    let fct = match read_facts(lookup(&es, "fct")) {
        Ok(f) => f,
        Err(e) => return Err(e),
    };
    let p = UcanPayload { iss, aud, sub, exp, nbf, nnc, att, prf, fct };
    proof {
        let v = payload_of_entries(entries_view(es@))->Ok_0;
        assert(p@.prf =~= v.prf);
        assert(p@.att =~= v.att);
    }
    Ok(p)
}

/// A capability read from its token (see `capability_of`).
pub(crate) fn parse_token(token: &str) -> (r: Result<Capability, LatticeError>)
    ensures
        match capability_of(token@) {
            Ok(c) => r matches Ok(x) && x@ == c,
            Err(m) => r matches Err(LatticeError::Serialization(e)) && e@ == m,
        },
{
    let parts = split_dots(token);
    if parts.len() != 3 {
        return Err(LatticeError::Serialization(string_of("Invalid UCAN format: expected 3 parts")));
    }
    assert(parts@[0]@ == dot_segments(token@)[0]);
    assert(parts@[1]@ == dot_segments(token@)[1]);
    assert(parts@[2]@ == dot_segments(token@)[2]);
    let hb = match base64url_decode(parts[0].as_str()) {
        Ok(b) => b,
        Err(e) => {
            let mut m = string_of("Header decode: ");
            m.append(e.as_str());
            return Err(LatticeError::Serialization(m));
        },
    };
    let pb = match base64url_decode(parts[1].as_str()) {
        Ok(b) => b,
        Err(e) => {
            let mut m = string_of("Payload decode: ");
            m.append(e.as_str());
            return Err(LatticeError::Serialization(m));
        },
    };
    let signature = match base64url_decode(parts[2].as_str()) {
        Ok(b) => b,
        Err(e) => {
            let mut m = string_of("Signature decode: ");
            m.append(e.as_str());
            return Err(LatticeError::Serialization(m));
        },
    };
    let header = match read_header(hb.as_slice()) {
        Ok(h) => h,
        Err(e) => {
            let mut m = string_of("Header parse: ");
            m.append(e.as_str());
            return Err(LatticeError::Serialization(m));
        },
    };
    let payload = match read_payload(pb.as_slice()) {
        Ok(p) => p,
        Err(e) => {
            let mut m = string_of("Payload parse: ");
            m.append(e.as_str());
            return Err(LatticeError::Serialization(m));
        },
    };
    Ok(Capability { token: string_of(token), header, payload, signature })
}

} // verus!
