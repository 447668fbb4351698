//! Tags: `key:value` labels with hierarchical namespaces.

use vstd::prelude::*;
use crate::error::LatticeError;
use crate::text::{absent_before, find_char, is_first_index, push_char, starts_with, string_of};

verus! {

/// Microseconds since the Unix epoch.
pub type Timestamp = i64;

/// The key of the actor that made something.
pub type ActorID = [u8; 32];

/// A tag; its key may itself hold `:`-separated namespaces.
#[derive(Debug, Clone, PartialEq, Eq)]
pub struct Tag {
    pub key: String,
    pub value: String,
    pub created_at: Timestamp,
    pub created_by: ActorID,
}

/// `key:value`
pub open spec fn tag_path(key: Seq<char>, value: Seq<char>) -> Seq<char> {
    key + seq![':'] + value
}

/// `p` is a prefix of `s` that ends where `s` ends or where a `:` follows.
pub open spec fn at_boundary(s: Seq<char>, p: Seq<char>) -> bool {
    p.is_prefix_of(s) && (s.len() == p.len() || s[p.len() as int] == ':')
}

/// Whether a tag with this key and value lies under `pattern`: a pattern
/// without `:` that the key starts with, or a pattern that is a prefix of
/// `key:value` or of the key ending at the end or before a `:`.
pub open spec fn tag_matches(key: Seq<char>, value: Seq<char>, pattern: Seq<char>) -> bool {
    ||| (absent_before(pattern, ':', pattern.len() as int) && pattern.is_prefix_of(key))
    ||| at_boundary(tag_path(key, value), pattern)
    ||| at_boundary(key, pattern)
}

/// The part of `s` before its first `:` (all of `s` if it has none).
pub open spec fn before_colon(s: Seq<char>) -> Seq<char> {
    if exists|i: int| is_first_index(s, ':', i) {
        s.take(choose|i: int| is_first_index(s, ':', i))
    } else {
        s
    }
}

/// Two first indices of a character are the same index.
pub proof fn lemma_first_index_unique(s: Seq<char>, c: char, i: int, j: int)
    requires
        is_first_index(s, c, i),
        is_first_index(s, c, j),
    ensures
        i == j,
{
    if i < j {
        assert(s[i] != c);
    } else if j < i {
        assert(s[j] != c);
    }
}

/// The clock as microseconds since the Unix epoch (`SystemTime::now()`),
/// or `None` when it reads before the epoch. Nothing is claimed of the value.
#[verifier::external_body]
fn system_time_micros() -> (r: Option<i64>) {
    match std::time::SystemTime::now().duration_since(std::time::UNIX_EPOCH) {
        Ok(d) => Some(d.as_micros() as i64),
        Err(_) => None,
    }
}

/// The current time in microseconds since the Unix epoch (0 when the clock
/// reads before the epoch).
pub fn timestamp_now() -> (r: Timestamp) {
    match system_time_micros() {
        Some(t) => t,
        None => 0,
    }
}

/// Whether `p` is a prefix of `s` ending at a `:` boundary or at the end.
fn prefix_at_boundary(s: &str, p: &str) -> (r: bool)
    ensures
        r == at_boundary(s@, p@),
{
    if !starts_with(s, p) {
        return false;
    }
    let n = s.unicode_len();
    let k = p.unicode_len();
    if n == k {
        return true;
    }
    s.get_char(k) == ':'
}

impl Tag {
    /// A tag made now by `created_by`.
    pub fn new(key: String, value: String, created_by: ActorID) -> (r: Tag)
        ensures
            r.key@ == key@,
            r.value@ == value@,
            r.created_by == created_by,
    {
        Tag { key, value, created_at: timestamp_now(), created_by }
    }

    /// Parse `key:value`, splitting at the first `:`; text without `:` is
    /// refused.
    pub fn parse(input: &str, created_by: ActorID) -> (r: Result<Tag, LatticeError>)
        ensures
            match r {
                Ok(t) => exists|i: int|
                    is_first_index(input@, ':', i) && t.key@ == input@.take(i) && t.value@ == input@.skip(i + 1)
                        && t.created_by == created_by,
                Err(e) => absent_before(input@, ':', input@.len() as int) && e is Serialization,
            },
    {
        match find_char(input, ':') {
            None => Err(LatticeError::Serialization(string_of("Invalid tag format: expected 'key:value'"))),
            Some(i) => {
                let n = input.unicode_len();
                let key = string_of(input.substring_char(0, i));
                let value = string_of(input.substring_char(i + 1, n));
                Ok(Tag::new(key, value, created_by))
            },
        }
    }

    /// The namespace: the key up to its first `:`.
    pub fn namespace(&self) -> (r: &str)
        ensures
            r@ == before_colon(self.key@),
    {
        let k = self.key.as_str();
        match find_char(k, ':') {
            Some(i) => {
                proof {
                    let j = choose|j: int| is_first_index(self.key@, ':', j);
                    lemma_first_index_unique(self.key@, ':', i as int, j);
                }
                k.substring_char(0, i)
            },
            None => {
                proof {
                    if exists|j: int| is_first_index(self.key@, ':', j) {
                        let j = choose|j: int| is_first_index(self.key@, ':', j);
                        assert(self.key@[j] != ':');
                    }
                }
                k
            },
        }
    }

    /// `key:value`
    pub fn full_path(&self) -> (r: String)
        ensures
            r@ == tag_path(self.key@, self.value@),
    {
        let mut r = self.key.clone();
        push_char(&mut r, ':');
        r.append(self.value.as_str());
        r
    }

    /// Whether the tag lies under `pattern` (see `tag_matches`): a pattern
    /// without `:` matches every key that starts with it; otherwise the
    /// pattern is a prefix of `key:value`, or of the key, that ends at the
    /// end or before a `:`.
    pub fn matches(&self, pattern: &str) -> (r: bool)
        ensures
            r == tag_matches(self.key@, self.value@, pattern@),
    {
        if find_char(pattern, ':').is_none() && starts_with(self.key.as_str(), pattern) {
            return true;
        }
        let full = self.full_path();
        if prefix_at_boundary(full.as_str(), pattern) {
            return true;
        }
        prefix_at_boundary(self.key.as_str(), pattern)
    }

    /// The key is in the reserved `sys:` namespace.
    pub fn is_system(&self) -> (r: bool)
        ensures
            r == "sys:"@.is_prefix_of(self.key@),
    {
        starts_with(self.key.as_str(), "sys:")
    }

    /// The key is in the `auto:` namespace.
    pub fn is_auto_generated(&self) -> (r: bool)
        ensures
            r == "auto:"@.is_prefix_of(self.key@),
    {
        starts_with(self.key.as_str(), "auto:")
    }

    /// The key is in the `user:` namespace.
    pub fn is_user_defined(&self) -> (r: bool)
        ensures
            r == "user:"@.is_prefix_of(self.key@),
    {
        starts_with(self.key.as_str(), "user:")
    }
}

/// Parsing gives back the parts a tag was written from, when the key has no
/// `:` (the split is at the first one).
pub proof fn lemma_parse_full_path(key: Seq<char>, value: Seq<char>)
    requires
        absent_before(key, ':', key.len() as int),
    ensures
        is_first_index(tag_path(key, value), ':', key.len() as int),
        tag_path(key, value).take(key.len() as int) == key,
        tag_path(key, value).skip(key.len() as int + 1) == value,
{
    let p = tag_path(key, value);
    assert(p.take(key.len() as int) =~= key);
    assert(p.skip(key.len() as int + 1) =~= value);
}

} // verus!
