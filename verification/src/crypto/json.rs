//! JSON pieces of capability tokens: reading a document field by field and
//! writing quoted strings, each step done by `serde_json` on plain values,
//! and the URL-safe base64 (no padding) of the token parts.

use vstd::prelude::*;
use base64::Engine;
use crate::text::{join_strings, joined, push_char, string_of, string_views};

verus! {

/// What `serde_json` reads from a JSON object document: its entries, each
/// value written back as compact JSON text; or the text of its error.
pub uninterp spec fn json_object(b: Seq<u8>) -> Result<Seq<(Seq<char>, Seq<char>)>, Seq<char>>;

/// What `serde_json` reads from a JSON array document: its items, each
/// written back as compact JSON text; or the text of its error.
pub uninterp spec fn json_array(t: Seq<char>) -> Result<Seq<Seq<char>>, Seq<char>>;

/// What `serde_json` reads as a string from a JSON document.
pub uninterp spec fn json_string_of(t: Seq<char>) -> Result<Seq<char>, Seq<char>>;

/// What `serde_json` reads as an unsigned 64-bit integer from a JSON document.
pub uninterp spec fn json_u64_of(t: Seq<char>) -> Result<u64, Seq<char>>;

/// The JSON string literal of a text, as `serde_json` writes it.
pub uninterp spec fn json_quoted(s: Seq<char>) -> Seq<char>;

/// The URL-safe base64 text (no padding) of some bytes.
pub uninterp spec fn base64url_text(b: Seq<u8>) -> Seq<char>;

/// What URL-safe base64 (no padding) decoding reads from a text: the
/// bytes, or the text of its error.
pub uninterp spec fn base64url_decoded(t: Seq<char>) -> Result<Seq<u8>, Seq<char>>;

/// `serde_json::from_slice::<serde_json::Map<String, Value>>` with each value
/// written back by `to_string`, its error as text. Claimed: the named result.
#[verifier::external_body]
pub(crate) fn read_json_object(b: &[u8]) -> (r: Result<Vec<(String, String)>, String>)
    ensures
        match json_object(b@) {
            Ok(es) => r matches Ok(v) && v@.len() == es.len() && forall|i: int|
                0 <= i < es.len() ==> (#[trigger] v@[i]).0@ == es[i].0 && v@[i].1@ == es[i].1,
            Err(m) => r matches Err(e) && e@ == m,
        },
{
    match serde_json::from_slice::<serde_json::Map<String, serde_json::Value>>(b) {
        Ok(m) => Ok(m.into_iter().map(|(k, v)| (k, v.to_string())).collect()),
        Err(e) => Err(e.to_string()),
    }
}

/// `serde_json::from_str::<Vec<Value>>` with each item written back by
/// `to_string`, its error as text. Claimed: the named result.
#[verifier::external_body]
pub(crate) fn read_json_array(t: &str) -> (r: Result<Vec<String>, String>)
    ensures
        match json_array(t@) {
            Ok(items) => r matches Ok(v) && v@.len() == items.len() && forall|i: int|
                0 <= i < items.len() ==> (#[trigger] v@[i])@ == items[i],
            Err(m) => r matches Err(e) && e@ == m,
        },
{
    match serde_json::from_str::<Vec<serde_json::Value>>(t) {
        Ok(items) => Ok(items.into_iter().map(|v| v.to_string()).collect()),
        Err(e) => Err(e.to_string()),
    }
}

/// `serde_json::from_str::<String>`, its error as text. Claimed: the named
/// result.
#[verifier::external_body]
pub(crate) fn read_json_string(t: &str) -> (r: Result<String, String>)
    ensures
        match json_string_of(t@) {
            Ok(s) => r matches Ok(v) && v@ == s,
            Err(m) => r matches Err(e) && e@ == m,
        },
{
    serde_json::from_str::<String>(t).map_err(|e| e.to_string())
}

/// `serde_json::from_str::<u64>`, its error as text. Claimed: the named
/// result.
#[verifier::external_body]
pub(crate) fn read_json_u64(t: &str) -> (r: Result<u64, String>)
    ensures
        match json_u64_of(t@) {
            Ok(n) => r == Ok::<u64, String>(n),
            Err(m) => r matches Err(e) && e@ == m,
        },
{
    serde_json::from_str::<u64>(t).map_err(|e| e.to_string())
}

/// `serde_json::to_string(s)` (which cannot fail for a string). Claimed: the
/// named literal, and `serde_json` reads it back as the text.
#[verifier::external_body]
pub(crate) fn quote_json(s: &str) -> (r: String)
    ensures
        r@ == json_quoted(s@),
        json_string_of(r@) is Ok && json_string_of(r@)->Ok_0 == s@,
{
    match serde_json::to_string(s) {
        Ok(q) => q,
        Err(_) => String::new(),
    }
}

/// `URL_SAFE_NO_PAD.encode(bytes)`. Claimed: the named text, which decodes
/// back to the bytes and holds no `.` (the alphabet is letters, digits, `-`
/// and `_`).
#[verifier::external_body]
pub(crate) fn base64url_encode(b: &[u8]) -> (r: String)
    ensures
        r@ == base64url_text(b@),
        base64url_decoded(r@) is Ok && base64url_decoded(r@)->Ok_0 == b@,
        !r@.contains('.'),
{
    base64::engine::general_purpose::URL_SAFE_NO_PAD.encode(b)
}

/// `URL_SAFE_NO_PAD.decode(text)`, its error as text. Claimed: the named
/// result.
#[verifier::external_body]
pub(crate) fn base64url_decode(t: &str) -> (r: Result<Vec<u8>, String>)
    ensures
        match base64url_decoded(t@) {
            Ok(b) => r matches Ok(v) && v@ == b,
            Err(m) => r matches Err(e) && e@ == m,
        },
{
    base64::engine::general_purpose::URL_SAFE_NO_PAD.decode(t).map_err(|e| e.to_string())
}

// ---- Writing JSON objects ----

/// The double quote character.
pub open spec fn dq() -> Seq<char> {
    seq!['\u{22}']
}

/// An object member whose key needs no escaping: `"key":value`.
pub open spec fn member(key: Seq<char>, value: Seq<char>) -> Seq<char> {
    dq() + key + dq() + ":"@ + value
}

/// A JSON object of the given members.
pub open spec fn json_members(items: Seq<Seq<char>>) -> Seq<char> {
    "{"@ + joined(items, ","@) + "}"@
}

/// A JSON array of the given items.
pub open spec fn json_items(items: Seq<Seq<char>>) -> Seq<char> {
    "["@ + joined(items, ","@) + "]"@
}

/// `"key":` appended to a text.
pub(crate) fn push_key(out: &mut String, key: &str)
    ensures
        final(out)@ == old(out)@ + dq() + key@ + dq() + ":"@,
{
    push_char(out, '\u{22}');
    out.append(key);
    push_char(out, '\u{22}');
    out.append(":");
}

/// `"key":value` as a text.
pub(crate) fn member_text(key: &str, value: &str) -> (r: String)
    ensures
        r@ == member(key@, value@),
{
    let mut out = String::new();
    push_key(&mut out, key);
    out.append(value);
    assert(out@ =~= member(key@, value@));
    out
}

/// The items joined by commas and wrapped in the given brackets.
pub(crate) fn wrap_joined(open: &str, items: &Vec<String>, close: &str) -> (r: String)
    ensures
        r@ == open@ + joined(string_views(items@), ","@) + close@,
{
    let mut out = string_of(open);
    let inner = join_strings(items, ",");
    out.append(inner.as_str());
    out.append(close);
    out
}

} // verus!
