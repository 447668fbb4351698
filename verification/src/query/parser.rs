//! LQL parser (recursive descent) from query text to a syntax tree.

use vstd::prelude::*;
use vstd::utf8::is_ascii_chars;
use crate::error::LatticeError;
use crate::model::object::{parse_uuid, uuid_parse, ObjectID};
use crate::model::state::{state_name, State};
use crate::query::ast::{
    CompareOp, Expr, ExprV, MimePattern, MimeV, ObjectRef, ObjectRefV, OrderBy,
    Predicate, PredicateV, Query, QueryV, SortDirection, SortField, TimeField, TimeOp, TimeValue,
    TrustLevel,
};
use crate::query::display::{
    compare_op_text, sort_direction_text, sort_field_text, time_field_text, time_op_text, trust_level_text,
};
use crate::query::lexer::{keyword_token, lemma_lex_progress, lex_at, skip_trivia, token_text, Lexer, Token, TokenOf, TokenV};
use crate::text::{
    all_digits, chars_of, digits_value, int_text_value, push_char, sign_len, str_eq, string_of, string_views, to_lowercase,
    unicode_lowercase,
};

verus! {

// ---- Outside calls ----

/// What `time::OffsetDateTime::parse(s, &Rfc3339)` yields, as the Unix
/// timestamp and the nanosecond of the parsed date-time.
pub uninterp spec fn rfc3339_timestamp(s: Seq<char>) -> Option<(i64, u32)>;

/// The Unix timestamp of midnight UTC on a calendar date, as
/// `time::Date::from_calendar_date` and `Month::try_from` compute it.
pub uninterp spec fn calendar_midnight_unix(year: i32, month: u8, day: u8) -> Option<i64>;

/// `time::OffsetDateTime::parse(s, &Rfc3339)`, then `unix_timestamp()` and
/// `nanosecond()` of the result. Claimed: the result is the named one; the
/// timestamp lies within years -9999..=9999 (so within +-4e11 seconds) and the
/// nanosecond is below 1e9, as the crate's date range and `Time` show.
#[verifier::external_body]
fn parse_rfc3339(s: &str) -> (r: Option<(i64, u32)>)
    ensures
        r == rfc3339_timestamp(s@),
        r matches Some((t, ns)) ==> -400_000_000_000 <= t <= 400_000_000_000 && ns < 1_000_000_000,
{
    match time::OffsetDateTime::parse(s, &time::format_description::well_known::Rfc3339) {
        Ok(dt) => Some((dt.unix_timestamp(), dt.nanosecond())),
        Err(_) => None,
    }
}

/// `Month::try_from(month)`, `Date::from_calendar_date(year, month, day)`,
/// then the Unix timestamp of that date at midnight UTC. Claimed: the result
/// is the named one, and it lies within years -9999..=9999.
#[verifier::external_body]
fn midnight_unix(year: i32, month: u8, day: u8) -> (r: Option<i64>)
    ensures
        r == calendar_midnight_unix(year, month, day),
        r matches Some(t) ==> -400_000_000_000 <= t <= 400_000_000_000,
{
    let m = match time::Month::try_from(month) {
        Ok(m) => m,
        Err(_) => return None,
    };
    match time::Date::from_calendar_date(year, m, day) {
        Ok(d) => Some(d.with_time(time::Time::MIDNIGHT).assume_utc().unix_timestamp()),
        Err(_) => None,
    }
}

// ---- Timestamps ----

/// Whether the text holds a character.
pub open spec fn has_char(t: Seq<char>, c: char) -> bool {
    exists|i: int| 0 <= i < t.len() && t[i] == c
}

/// A timestamp text as Unix microseconds: RFC 3339 (when it has `T`, `+` or
/// `:`, or ends in `Z`), `YYYY-MM-DD` or `YYYY-MM` (midnight UTC).
pub open spec fn timestamp_micros(raw: Seq<char>) -> Option<i64> {
    if has_char(raw, 'T') || (raw.len() > 0 && raw.last() == 'Z') || has_char(raw, '+') || has_char(raw, ':') {
        match rfc3339_timestamp(raw) {
            Some((t, ns)) => Some((t * 1_000_000 + ns / 1000) as i64),
            None => None,
        }
    } else if !is_ascii_chars(raw) {
        None
    } else if raw.len() == 10 && raw[4] == '-' && raw[7] == '-' {
        match (int_text_value(raw.subrange(0, 4), true), int_text_value(raw.subrange(5, 7), false), int_text_value(raw.subrange(8, 10), false)) {
            (Some(y), Some(m), Some(d)) => match calendar_midnight_unix(y as i32, m as u8, d as u8) {
                Some(t) => Some((t * 1_000_000) as i64),
                None => None,
            },
            _ => None,
        }
    } else if raw.len() == 7 && raw[4] == '-' {
        match (int_text_value(raw.subrange(0, 4), true), int_text_value(raw.subrange(5, 7), false)) {
            (Some(y), Some(m)) => match calendar_midnight_unix(y as i32, m as u8, 1) {
                Some(t) => Some((t * 1_000_000) as i64),
                None => None,
            },
            _ => None,
        }
    } else {
        None
    }
}

/// Parse integer text of at most 4 characters.
fn parse_small_int(t: &[char], signed: bool) -> (r: Option<i32>)
    requires
        t@.len() <= 4,
    ensures
        match int_text_value(t@, signed) {
            Some(v) => r == Some(v as i32) && -9999 <= v <= 9999,
            None => r is None,
        },
{
    let n = t.len();
    let mut i: usize = 0;
    let mut neg = false;
    if n > 0 && t[0] == '+' {
        i = 1;
    } else if signed && n > 0 && t[0] == '-' {
        i = 1;
        neg = true;
    }
    let ghost digits = t@.subrange(i as int, n as int);
    if i >= n {
        return None;
    }
    let start = i;
    let mut v: i32 = 0;
    while i < n
        invariant
            start <= i <= n <= 4,
            n == t@.len(),
            start <= 1,
            digits == t@.subrange(start as int, n as int),
            start == sign_len(t@, signed),
            neg == (start == 1 && t@[0] == '-'),
            forall|j: int| start <= j < i ==> '0' <= #[trigger] t@[j] <= '9',
            v == digits_value(t@.subrange(start as int, i as int)),
            0 <= v < crate::query::lexer::pow10((i - start) as nat),
        decreases n - i,
    {
        let c = t[i];
        if !('0' <= c && c <= '9') {
            proof {
                assert(digits[i - start] == c);
                assert(!('0' <= digits[i - start] <= '9'));
            }
            return None;
        }
        assert(t@.subrange(start as int, i + 1).drop_last() =~= t@.subrange(start as int, i as int));
        proof {
            reveal_with_fuel(crate::query::lexer::pow10, 5);
        }
        v = v * 10 + (c as u32 - '0' as u32) as i32;
        i = i + 1;
    }
    proof {
        reveal_with_fuel(crate::query::lexer::pow10, 5);
        assert(t@.subrange(start as int, i as int) =~= digits);
    }
    if neg {
        Some(-v)
    } else {
        Some(v)
    }
}

/// Convert a timestamp text to Unix microseconds.
fn timestamp_to_micros(raw: &str) -> (r: Option<i64>)
    ensures
        r == timestamp_micros(raw@),
{
    let chars = chars_of(raw);
    let n = chars.len();
    let mut has_t = false;
    let mut has_plus = false;
    let mut has_colon = false;
    let mut i: usize = 0;
    while i < n
        invariant
            n == chars@.len(),
            chars@ == raw@,
            i <= n,
            has_t == has_char(raw@.subrange(0, i as int), 'T'),
            has_plus == has_char(raw@.subrange(0, i as int), '+'),
            has_colon == has_char(raw@.subrange(0, i as int), ':'),
        decreases n - i,
    {
        let c = chars[i];
        proof {
            let a = raw@.subrange(0, i as int);
            let b = raw@.subrange(0, i + 1);
            assert(forall|k: int| 0 <= k < i ==> b[k] == a[k]);
            assert(b[i as int] == c);
            assert(has_char(b, 'T') == (has_char(a, 'T') || c == 'T'));
            assert(has_char(b, '+') == (has_char(a, '+') || c == '+'));
            assert(has_char(b, ':') == (has_char(a, ':') || c == ':'));
        }
        if c == 'T' {
            has_t = true;
        }
        if c == '+' {
            has_plus = true;
        }
        if c == ':' {
            has_colon = true;
        }
        i = i + 1;
    }
    assert(raw@.subrange(0, n as int) =~= raw@);
    let ends_z = n > 0 && chars[n - 1] == 'Z';
    if has_t || ends_z || has_plus || has_colon {
        match parse_rfc3339(raw) {
            Some((t, ns)) => {
                return Some(t * 1_000_000 + (ns / 1000) as i64);
            }
            None => {
                return None;
            }
        }
    }
    if !raw.is_ascii() {
        return None;
    }
    if n == 10 && chars[4] == '-' && chars[7] == '-' {
        let y = parse_small_int(&chars[0..4], true);
        let m = parse_small_int(&chars[5..7], false);
        let d = parse_small_int(&chars[8..10], false);
        assert(chars@.subrange(0, 4) == raw@.subrange(0, 4));
        match (y, m, d) {
            (Some(y), Some(m), Some(d)) => {
                match midnight_unix(y, m as u8, d as u8) {
                    Some(t) => Some(t * 1_000_000),
                    None => None,
                }
            }
            _ => None,
        }
    } else if n == 7 && chars[4] == '-' {
        let y = parse_small_int(&chars[0..4], true);
        let m = parse_small_int(&chars[5..7], false);
        match (y, m) {
            (Some(y), Some(m)) => {
                match midnight_unix(y, m as u8, 1) {
                    Some(t) => Some(t * 1_000_000),
                    None => None,
                }
            }
            _ => None,
        }
    } else {
        None
    }
}

// ---- Parser states ----

/// A parser state: the lexer position and the current (already read) token.
pub type PState = (int, TokenV);

/// Discriminant of a token.
pub open spec fn token_kind(t: TokenV) -> int {
    match t {
        TokenOf::And => 0,
        TokenOf::Or => 1,
        TokenOf::Not => 2,
        TokenOf::Sort => 3,
        TokenOf::Limit => 4,
        TokenOf::Asc => 5,
        TokenOf::Desc => 6,
        TokenOf::Tag => 7,
        TokenOf::Type => 8,
        TokenOf::State => 9,
        TokenOf::Trust => 10,
        TokenOf::Updated => 11,
        TokenOf::Created => 12,
        TokenOf::Ref => 13,
        TokenOf::References => 14,
        TokenOf::Closure => 15,
        TokenOf::Draft => 16,
        TokenOf::Review => 17,
        TokenOf::Approved => 18,
        TokenOf::Discarded => 19,
        TokenOf::Sealed => 20,
        TokenOf::Archived => 21,
        TokenOf::Untrusted => 22,
        TokenOf::Quarantined => 23,
        TokenOf::Trusted => 24,
        TokenOf::Within => 25,
        TokenOf::Before => 26,
        TokenOf::After => 27,
        TokenOf::Between => 28,
        TokenOf::Eq => 29,
        TokenOf::Ne => 30,
        TokenOf::Gt => 31,
        TokenOf::Lt => 32,
        TokenOf::Ge => 33,
        TokenOf::Le => 34,
        TokenOf::Colon => 35,
        TokenOf::LParen => 36,
        TokenOf::RParen => 37,
        TokenOf::Slash => 38,
        TokenOf::Star => 39,
        TokenOf::Identifier(_) => 40,
        TokenOf::Number(_) => 41,
        TokenOf::Duration(_) => 42,
        TokenOf::Timestamp(_) => 43,
        TokenOf::String(_) => 44,
        TokenOf::Eof => 45,
    }
}

fn kind_of(t: &Token) -> (r: u8)
    ensures
        r as int == token_kind(t@),
{
    match t {
        TokenOf::And => 0,
        TokenOf::Or => 1,
        TokenOf::Not => 2,
        TokenOf::Sort => 3,
        TokenOf::Limit => 4,
        TokenOf::Asc => 5,
        TokenOf::Desc => 6,
        TokenOf::Tag => 7,
        TokenOf::Type => 8,
        TokenOf::State => 9,
        TokenOf::Trust => 10,
        TokenOf::Updated => 11,
        TokenOf::Created => 12,
        TokenOf::Ref => 13,
        TokenOf::References => 14,
        TokenOf::Closure => 15,
        TokenOf::Draft => 16,
        TokenOf::Review => 17,
        TokenOf::Approved => 18,
        TokenOf::Discarded => 19,
        TokenOf::Sealed => 20,
        TokenOf::Archived => 21,
        TokenOf::Untrusted => 22,
        TokenOf::Quarantined => 23,
        TokenOf::Trusted => 24,
        TokenOf::Within => 25,
        TokenOf::Before => 26,
        TokenOf::After => 27,
        TokenOf::Between => 28,
        TokenOf::Eq => 29,
        TokenOf::Ne => 30,
        TokenOf::Gt => 31,
        TokenOf::Lt => 32,
        TokenOf::Ge => 33,
        TokenOf::Le => 34,
        TokenOf::Colon => 35,
        TokenOf::LParen => 36,
        TokenOf::RParen => 37,
        TokenOf::Slash => 38,
        TokenOf::Star => 39,
        TokenOf::Identifier(_) => 40,
        TokenOf::Number(_) => 41,
        TokenOf::Duration(_) => 42,
        TokenOf::Timestamp(_) => 43,
        TokenOf::String(_) => 44,
        TokenOf::Eof => 45,
    }
}

/// Remaining work: characters left, plus one while a token is pending.
pub open spec fn measure(s: Seq<char>, st: PState) -> int {
    s.len() - st.0 + if st.1 is Eof { 0int } else { 1int }
}

pub open spec fn st_wf(s: Seq<char>, st: PState) -> bool {
    0 <= st.0 <= s.len() && (st.1 is Eof ==> st.0 == s.len())
}

/// Read the next token: the new state, or the lexer's error position.
pub open spec fn advance(s: Seq<char>, st: PState) -> Result<PState, int> {
    match lex_at(s, st.0) {
        Ok((t, q)) => Ok((q, t)),
        Err((e, _)) => Err(e),
    }
}

/// Consume a token of the same kind as `k`, or fail at the current position.
pub open spec fn expect(s: Seq<char>, st: PState, k: TokenV) -> Result<PState, int> {
    if token_kind(st.1) == token_kind(k) {
        advance(s, st)
    } else {
        Err(st.0)
    }
}

/// `a` has strictly less work left than `b`.
pub open spec fn smaller(s: Seq<char>, a: PState, b: PState) -> bool {
    0 <= measure(s, a) < measure(s, b)
}

/// `a` has no more work left than `b`.
pub open spec fn no_larger(s: Seq<char>, a: PState, b: PState) -> bool {
    0 <= measure(s, a) <= measure(s, b)
}

pub proof fn lemma_advance(s: Seq<char>, st: PState)
    requires
        st_wf(s, st),
    ensures
        advance(s, st) matches Ok(st2) ==> st_wf(s, st2) && measure(s, st2) <= measure(s, st)
            && (st.1 !is Eof ==> measure(s, st2) < measure(s, st)),
{
    lemma_lex_progress(s, st.0);
}

// ---- Grammar ----

/// `identifier`, also accepting the words `draft`, `review` and `approved`.
pub open spec fn p_identifier(s: Seq<char>, st: PState) -> Result<(Seq<char>, PState), int> {
    match st.1 {
        TokenOf::Identifier(x) => match advance(s, st) { Ok(st2) => Ok((x, st2)), Err(e) => Err(e) },
        TokenOf::Draft => match advance(s, st) { Ok(st2) => Ok(("draft"@, st2)), Err(e) => Err(e) },
        TokenOf::Review => match advance(s, st) { Ok(st2) => Ok(("review"@, st2)), Err(e) => Err(e) },
        TokenOf::Approved => match advance(s, st) { Ok(st2) => Ok(("approved"@, st2)), Err(e) => Err(e) },
        _ => Err(st.0),
    }
}

/// A quoted string, `*`, or an identifier.
pub open spec fn p_tag_atom(s: Seq<char>, st: PState) -> Result<(Seq<char>, PState), int> {
    match st.1 {
        TokenOf::String(x) => match advance(s, st) { Ok(st2) => Ok((x, st2)), Err(e) => Err(e) },
        TokenOf::Star => match advance(s, st) { Ok(st2) => Ok(("*"@, st2)), Err(e) => Err(e) },
        _ => p_identifier(s, st),
    }
}

/// The rest of a tag segment: `(/ atom)*`, joined with `/`.
pub open spec fn p_segment_tail(s: Seq<char>, st: PState, seg: Seq<char>) -> Result<(Seq<char>, PState), int>
    decreases measure(s, st),
{
    if st.1 is Slash {
        match advance(s, st) {
            Err(e) => Err(e),
            Ok(st2) => match p_tag_atom(s, st2) {
                Err(e) => Err(e),
                Ok((next, st3)) => if smaller(s, st3, st) {
                    p_segment_tail(s, st3, seg.push('/') + next)
                } else {
                    Err(-1)
                },
            },
        }
    } else {
        Ok((seg, st))
    }
}

/// A tag segment: atoms joined by `/`.
pub open spec fn p_tag_segment(s: Seq<char>, st: PState) -> Result<(Seq<char>, PState), int> {
    match p_tag_atom(s, st) {
        Err(e) => Err(e),
        Ok((a, st1)) => p_segment_tail(s, st1, a),
    }
}

/// The rest of a tag path: `(: segment)*`.
pub open spec fn p_path_tail(s: Seq<char>, st: PState, path: Seq<Seq<char>>) -> Result<(Seq<Seq<char>>, PState), int>
    decreases measure(s, st),
{
    if st.1 is Colon {
        match advance(s, st) {
            Err(e) => Err(e),
            Ok(st2) => match p_tag_segment(s, st2) {
                Err(e) => Err(e),
                Ok((seg, st3)) => if smaller(s, st3, st) {
                    p_path_tail(s, st3, path.push(seg))
                } else {
                    Err(-1)
                },
            },
        }
    } else {
        Ok((path, st))
    }
}

/// A tag path after its leading colon: `segment (: segment)*`.
pub open spec fn p_tag_path(s: Seq<char>, st: PState) -> Result<(Seq<Seq<char>>, PState), int> {
    match p_tag_segment(s, st) {
        Err(e) => Err(e),
        Ok((seg, st1)) => p_path_tail(s, st1, seq![seg]),
    }
}

/// `tag : path`
pub open spec fn p_tag_pred(s: Seq<char>, st: PState) -> Result<(PredicateV, PState), int> {
    match expect(s, st, TokenOf::Tag) {
        Err(e) => Err(e),
        Ok(st1) => match expect(s, st1, TokenOf::Colon) {
            Err(e) => Err(e),
            Ok(st2) => match p_tag_path(s, st2) {
                Err(e) => Err(e),
                Ok((path, st3)) => Ok((PredicateV::Tag(path), st3)),
            },
        },
    }
}

/// `type : *`, `type : major`, `type : major / *` or `type : major / minor`.
pub open spec fn p_type_pred(s: Seq<char>, st: PState) -> Result<(PredicateV, PState), int> {
    match expect(s, st, TokenOf::Type) {
        Err(e) => Err(e),
        Ok(st1) => match expect(s, st1, TokenOf::Colon) {
            Err(e) => Err(e),
            Ok(st2) => if st2.1 is Star {
                match advance(s, st2) {
                    Err(e) => Err(e),
                    Ok(st3) => Ok((PredicateV::Type(MimeV { major: "*"@, minor: None }), st3)),
                }
            } else {
                match p_identifier(s, st2) {
                    Err(e) => Err(e),
                    Ok((major, st3)) => if !(st3.1 is Slash) {
                        Ok((PredicateV::Type(MimeV { major: "application"@, minor: Some(major) }), st3))
                    } else {
                        match expect(s, st3, TokenOf::Slash) {
                            Err(e) => Err(e),
                            Ok(st4) => if st4.1 is Star {
                                match advance(s, st4) {
                                    Err(e) => Err(e),
                                    Ok(st5) => Ok((PredicateV::Type(MimeV { major: major, minor: None }), st5)),
                                }
                            } else {
                                match p_identifier(s, st4) {
                                    Err(e) => Err(e),
                                    Ok((minor, st5)) => Ok((PredicateV::Type(MimeV { major: major, minor: Some(minor) }), st5)),
                                }
                            },
                        }
                    },
                }
            },
        },
    }
}

/// The state named by a state keyword token.
pub open spec fn state_of_token(t: TokenV) -> Option<State> {
    match t {
        TokenOf::Draft => Some(State::Draft),
        TokenOf::Review => Some(State::Review),
        TokenOf::Approved => Some(State::Approved),
        TokenOf::Discarded => Some(State::Discarded),
        TokenOf::Sealed => Some(State::Sealed),
        TokenOf::Archived => Some(State::Archived),
        _ => None,
    }
}

/// A comparison token yields the comparison that prints as the token does:
/// `>` greater-than, `<` less-than, `>=`, `<=`, `=` and `!=` likewise.
pub proof fn lemma_compare_token_text(t: TokenV)
    ensures
        op_of_token(t) matches Some(op) ==> token_text(t) == compare_op_text(op),
{
}

/// Every comparison is yielded by the token that prints as it does.
pub proof fn lemma_compare_op_has_token(op: CompareOp)
    ensures
        exists|t: TokenV| #[trigger] op_of_token(t) == Some(op) && token_text(t) == compare_op_text(op),
{
    let t = match op {
        CompareOp::Eq => TokenOf::Eq,
        CompareOp::Ne => TokenOf::Ne,
        CompareOp::Gt => TokenOf::Gt,
        CompareOp::Lt => TokenOf::Lt,
        CompareOp::Ge => TokenOf::Ge,
        CompareOp::Le => TokenOf::Le,
    };
    assert(op_of_token(t) == Some(op) && token_text(t) == compare_op_text(op));
}

/// The comparison characters of a query read as the comparisons they
/// denote: `>` as greater-than and `>=` as greater-or-equal, `<` as
/// less-than and `<=` as less-or-equal, `=` as equality and `!=` as
/// inequality.
pub proof fn lemma_compare_chars(s: Seq<char>, p: int)
    requires
        0 <= p < s.len(),
        skip_trivia(s, p, false) == p,
    ensures
        s[p] == '>' && !(p + 1 < s.len() && s[p + 1] == '=') ==> (lex_at(s, p) is Ok && op_of_token(lex_at(s, p)->Ok_0.0) == Some(CompareOp::Gt)),
        s[p] == '>' && p + 1 < s.len() && s[p + 1] == '=' ==> (lex_at(s, p) is Ok && op_of_token(lex_at(s, p)->Ok_0.0) == Some(CompareOp::Ge)),
        s[p] == '<' && !(p + 1 < s.len() && s[p + 1] == '=') ==> (lex_at(s, p) is Ok && op_of_token(lex_at(s, p)->Ok_0.0) == Some(CompareOp::Lt)),
        s[p] == '<' && p + 1 < s.len() && s[p + 1] == '=' ==> (lex_at(s, p) is Ok && op_of_token(lex_at(s, p)->Ok_0.0) == Some(CompareOp::Le)),
        s[p] == '=' ==> (lex_at(s, p) is Ok && op_of_token(lex_at(s, p)->Ok_0.0) == Some(CompareOp::Eq)),
        s[p] == '!' && p + 1 < s.len() && s[p + 1] == '=' ==> (lex_at(s, p) is Ok && op_of_token(lex_at(s, p)->Ok_0.0) == Some(CompareOp::Ne)),
{
}

/// A keyword that the parser reads as a state is that state's name: the
/// word `sealed` selects sealed objects, `archived` archived ones, and so
/// on.
pub proof fn lemma_state_keyword_is_name(w: Seq<char>, s: State)
    requires
        keyword_token(w) matches Some(t) && state_of_token(t) == Some(s),
    ensures
        w == state_name(s),
{
}

/// `state : value`
pub open spec fn p_state_pred(s: Seq<char>, st: PState) -> Result<(PredicateV, PState), int> {
    match expect(s, st, TokenOf::State) {
        Err(e) => Err(e),
        Ok(st1) => match expect(s, st1, TokenOf::Colon) {
            Err(e) => Err(e),
            Ok(st2) => match state_of_token(st2.1) {
                None => Err(st2.0),
                Some(state) => match advance(s, st2) {
                    Err(e) => Err(e),
                    Ok(st3) => Ok((PredicateV::State(state), st3)),
                },
            },
        },
    }
}

/// The comparison named by an operator token.
pub open spec fn op_of_token(t: TokenV) -> Option<CompareOp> {
    match t {
        TokenOf::Eq => Some(CompareOp::Eq),
        TokenOf::Ne => Some(CompareOp::Ne),
        TokenOf::Gt => Some(CompareOp::Gt),
        TokenOf::Lt => Some(CompareOp::Lt),
        TokenOf::Ge => Some(CompareOp::Ge),
        TokenOf::Le => Some(CompareOp::Le),
        _ => None,
    }
}

/// The trust level a token names.
pub open spec fn trust_of_token(t: TokenV) -> Option<TrustLevel> {
    match t {
        TokenOf::Untrusted => Some(TrustLevel::Untrusted),
        TokenOf::Quarantined => Some(TrustLevel::Quarantined),
        TokenOf::Trusted => Some(TrustLevel::Trusted),
        TokenOf::Approved => Some(TrustLevel::Approved),
        TokenOf::Number(n) => Some(TrustLevel::Numeric(n as u8)),
        TokenOf::Identifier(x) => if unicode_lowercase(x) == "medium"@ { Some(TrustLevel::Numeric(50)) } else { None },
        _ => None,
    }
}

/// `trust op level`
pub open spec fn p_trust_pred(s: Seq<char>, st: PState) -> Result<(PredicateV, PState), int> {
    match expect(s, st, TokenOf::Trust) {
        Err(e) => Err(e),
        Ok(st1) => match op_of_token(st1.1) {
            None => Err(st1.0),
            Some(op) => match advance(s, st1) {
                Err(e) => Err(e),
                Ok(st2) => match trust_of_token(st2.1) {
                    None => Err(st2.0),
                    Some(level) => match advance(s, st2) {
                        Err(e) => Err(e),
                        Ok(st3) => Ok((PredicateV::Trust(op, level), st3)),
                    },
                },
            },
        },
    }
}

/// A timestamp value in Unix microseconds: a date text, a quoted string or
/// epoch seconds.
pub open spec fn p_timestamp(s: Seq<char>, st: PState) -> Result<(i64, PState), int> {
    match st.1 {
        TokenOf::Number(n) => match advance(s, st) {
            Err(e) => Err(e),
            Ok(st2) => Ok((n.wrapping_mul(1_000_000), st2)),
        },
        TokenOf::Timestamp(raw) => match advance(s, st) {
            Err(e) => Err(e),
            Ok(st2) => match timestamp_micros(raw) {
                Some(m) => Ok((m, st2)),
                None => Err(st2.0),
            },
        },
        TokenOf::String(raw) => match advance(s, st) {
            Err(e) => Err(e),
            Ok(st2) => match timestamp_micros(raw) {
                Some(m) => Ok((m, st2)),
                None => Err(st2.0),
            },
        },
        _ => Err(st.0),
    }
}

/// `field op value`
pub open spec fn p_time_pred(s: Seq<char>, st: PState) -> Result<(PredicateV, PState), int> {
    let field = match st.1 {
        TokenOf::Updated => Some(TimeField::Updated),
        TokenOf::Created => Some(TimeField::Created),
        _ => None,
    };
    match field {
        None => Err(st.0),
        Some(field) => match advance(s, st) {
            Err(e) => Err(e),
            Ok(st1) => {
                let op = match st1.1 {
                    TokenOf::Within => Some(TimeOp::Within),
                    TokenOf::Before => Some(TimeOp::Before),
                    TokenOf::After => Some(TimeOp::After),
                    TokenOf::Between => Some(TimeOp::Between),
                    _ => None,
                };
                match op {
                    None => Err(st1.0),
                    Some(op) => match advance(s, st1) {
                        Err(e) => Err(e),
                        Ok(st2) => match op {
                            TimeOp::Within => match st2.1 {
                                TokenOf::Duration(d) => match advance(s, st2) {
                                    Err(e) => Err(e),
                                    Ok(st3) => Ok((PredicateV::Time(field, op, TimeValue::Duration(d)), st3)),
                                },
                                _ => Err(st2.0),
                            },
                            TimeOp::Between => match p_timestamp(s, st2) {
                                Err(e) => Err(e),
                                Ok((start, st3)) => match p_timestamp(s, st3) {
                                    Err(e) => Err(e),
                                    Ok((end, st4)) => Ok((PredicateV::Time(field, op, TimeValue::Range { start, end }), st4)),
                                },
                            },
                            _ => match p_timestamp(s, st2) {
                                Err(e) => Err(e),
                                Ok((t, st3)) => Ok((PredicateV::Time(field, op, TimeValue::Timestamp(t)), st3)),
                            },
                        },
                    },
                }
            },
        },
    }
}

/// An object reference: `ref : <ref>`, an ID or hash, `tag : path`, or an alias.
pub open spec fn p_object_ref(s: Seq<char>, st: PState) -> Result<(ObjectRefV, PState), int>
    decreases measure(s, st),
{
    match st.1 {
        TokenOf::Ref => match advance(s, st) {
            Err(e) => Err(e),
            Ok(st2) => match expect(s, st2, TokenOf::Colon) {
                Err(e) => Err(e),
                Ok(st3) => if smaller(s, st3, st) { p_object_ref(s, st3) } else { Err(-1) },
            },
        },
        TokenOf::Identifier(x) => match advance(s, st) {
            Err(e) => Err(e),
            Ok(st2) => match uuid_parse(x) {
                Some(u) => Ok((ObjectRefV::Id(ObjectID(u)), st2)),
                None => Ok((ObjectRefV::Hash(x), st2)),
            },
        },
        TokenOf::Tag => match advance(s, st) {
            Err(e) => Err(e),
            Ok(st2) => match expect(s, st2, TokenOf::Colon) {
                Err(e) => Err(e),
                Ok(st3) => match p_tag_path(s, st3) {
                    Err(e) => Err(e),
                    Ok((path, st4)) => Ok((ObjectRefV::Tag(path), st4)),
                },
            },
        },
        TokenOf::String(x) => match advance(s, st) {
            Err(e) => Err(e),
            Ok(st2) => Ok((ObjectRefV::Alias(x), st2)),
        },
        _ => Err(st.0),
    }
}

/// `ref : <ref>`, `references ( <ref> )` or `closure ( <ref> )`.
pub open spec fn p_ref_like(s: Seq<char>, st: PState) -> Result<(PredicateV, PState), int> {
    match st.1 {
        TokenOf::Ref => match advance(s, st) {
            Err(e) => Err(e),
            Ok(st1) => match expect(s, st1, TokenOf::Colon) {
                Err(e) => Err(e),
                Ok(st2) => match p_object_ref(s, st2) {
                    Err(e) => Err(e),
                    Ok((r, st3)) => Ok((PredicateV::Ref(r), st3)),
                },
            },
        },
        _ => match advance(s, st) {
            Err(e) => Err(e),
            Ok(st1) => match expect(s, st1, TokenOf::LParen) {
                Err(e) => Err(e),
                Ok(st2) => match p_object_ref(s, st2) {
                    Err(e) => Err(e),
                    Ok((r, st3)) => match expect(s, st3, TokenOf::RParen) {
                        Err(e) => Err(e),
                        Ok(st4) => if st.1 is References {
                            Ok((PredicateV::References(r), st4))
                        } else {
                            Ok((PredicateV::Closure(r), st4))
                        },
                    },
                },
            },
        },
    }
}

/// A predicate.
pub open spec fn p_predicate(s: Seq<char>, st: PState) -> Result<(PredicateV, PState), int> {
    match st.1 {
        TokenOf::Tag => p_tag_pred(s, st),
        TokenOf::Type => p_type_pred(s, st),
        TokenOf::State => p_state_pred(s, st),
        TokenOf::Trust => p_trust_pred(s, st),
        TokenOf::Updated => p_time_pred(s, st),
        TokenOf::Created => p_time_pred(s, st),
        TokenOf::Ref => p_ref_like(s, st),
        TokenOf::References => p_ref_like(s, st),
        TokenOf::Closure => p_ref_like(s, st),
        _ => Err(st.0),
    }
}

/// `term = NOT term | ( expr ) | predicate`
pub open spec fn p_term(s: Seq<char>, st: PState) -> Result<(ExprV, PState), int>
    decreases measure(s, st), 0int,
{
    match st.1 {
        TokenOf::Not => match advance(s, st) {
            Err(e) => Err(e),
            Ok(st2) => if smaller(s, st2, st) {
                match p_term(s, st2) {
                    Err(e) => Err(e),
                    Ok((x, st3)) => Ok((ExprV::Not(Box::new(x)), st3)),
                }
            } else {
                Err(-1)
            },
        },
        TokenOf::LParen => match advance(s, st) {
            Err(e) => Err(e),
            Ok(st2) => if smaller(s, st2, st) {
                match p_or(s, st2) {
                    Err(e) => Err(e),
                    Ok((x, st3)) => match expect(s, st3, TokenOf::RParen) {
                        Err(e) => Err(e),
                        Ok(st4) => Ok((x, st4)),
                    },
                }
            } else {
                Err(-1)
            },
        },
        _ => match p_predicate(s, st) {
            Err(e) => Err(e),
            Ok((p, st2)) => Ok((ExprV::Pred(p), st2)),
        },
    }
}

/// The rest of an AND chain, folded to the left.
pub open spec fn p_and_tail(s: Seq<char>, st: PState, left: ExprV) -> Result<(ExprV, PState), int>
    decreases measure(s, st), 1int,
{
    if st.1 is And {
        match advance(s, st) {
            Err(e) => Err(e),
            Ok(st2) => if smaller(s, st2, st) {
                match p_term(s, st2) {
                    Err(e) => Err(e),
                    Ok((r, st3)) => if no_larger(s, st3, st2) {
                        p_and_tail(s, st3, ExprV::And(Box::new(left), Box::new(r)))
                    } else {
                        Err(-1)
                    },
                }
            } else {
                Err(-1)
            },
        }
    } else {
        Ok((left, st))
    }
}

/// `and_expr = term (AND term)*`
pub open spec fn p_and(s: Seq<char>, st: PState) -> Result<(ExprV, PState), int>
    decreases measure(s, st), 2int,
{
    match p_term(s, st) {
        Err(e) => Err(e),
        Ok((l, st1)) => if no_larger(s, st1, st) { p_and_tail(s, st1, l) } else { Err(-1) },
    }
}

/// The rest of an OR chain, folded to the left.
pub open spec fn p_or_tail(s: Seq<char>, st: PState, left: ExprV) -> Result<(ExprV, PState), int>
    decreases measure(s, st), 3int,
{
    if st.1 is Or {
        match advance(s, st) {
            Err(e) => Err(e),
            Ok(st2) => if smaller(s, st2, st) {
                match p_and(s, st2) {
                    Err(e) => Err(e),
                    Ok((r, st3)) => if no_larger(s, st3, st2) {
                        p_or_tail(s, st3, ExprV::Or(Box::new(left), Box::new(r)))
                    } else {
                        Err(-1)
                    },
                }
            } else {
                Err(-1)
            },
        }
    } else {
        Ok((left, st))
    }
}

/// `expr = and_expr (OR and_expr)*`
pub open spec fn p_or(s: Seq<char>, st: PState) -> Result<(ExprV, PState), int>
    decreases measure(s, st), 4int,
{
    match p_and(s, st) {
        Err(e) => Err(e),
        Ok((l, st1)) => if no_larger(s, st1, st) { p_or_tail(s, st1, l) } else { Err(-1) },
    }
}

/// `SORT field direction?` (direction defaults to DESC)
pub open spec fn p_order(s: Seq<char>, st: PState) -> Result<(OrderBy, PState), int> {
    match expect(s, st, TokenOf::Sort) {
        Err(e) => Err(e),
        Ok(st1) => {
            let field = match st1.1 {
                TokenOf::Updated => Some(SortField::Updated),
                TokenOf::Created => Some(SortField::Created),
                TokenOf::Identifier(x) => if unicode_lowercase(x) == "size"@ { Some(SortField::Size) } else { None },
                TokenOf::Trust => Some(SortField::Trust),
                _ => None,
            };
            match field {
                None => Err(st1.0),
                Some(field) => match advance(s, st1) {
                    Err(e) => Err(e),
                    Ok(st2) => match st2.1 {
                        TokenOf::Asc => match advance(s, st2) {
                            Err(e) => Err(e),
                            Ok(st3) => Ok((OrderBy { field, direction: SortDirection::Asc }, st3)),
                        },
                        TokenOf::Desc => match advance(s, st2) {
                            Err(e) => Err(e),
                            Ok(st3) => Ok((OrderBy { field, direction: SortDirection::Desc }, st3)),
                        },
                        _ => Ok((OrderBy { field, direction: SortDirection::Desc }, st2)),
                    },
                },
            }
        },
    }
}

/// The words of a parsed predicate are the words of what it denotes: a
/// state predicate's state is named by its token, a trust predicate's
/// operator is written as its token and a named trust level is its token's
/// word, and a time predicate's field and operator are the words read.
pub proof fn lemma_predicate_words(s: Seq<char>, st: PState)
    ensures
        forall|t: TokenV| #[trigger] state_of_token(t) is Some ==> token_text(t) == state_name(state_of_token(t)->Some_0),
        forall|t: TokenV|
            #[trigger] trust_of_token(t) is Some && (t is Untrusted || t is Quarantined || t is Trusted
                || t is Approved) ==> token_text(t) == trust_level_text(trust_of_token(t)->Some_0),
        p_trust_pred(s, st) matches Ok((PredicateV::Trust(op, _), _)) ==> (expect(s, st, TokenOf::Trust) matches Ok(
            st1,
        ) && token_text(st1.1) == compare_op_text(op)),
        p_time_pred(s, st) matches Ok((PredicateV::Time(f, op, _), _)) ==> ({
            &&& token_text(st.1) == time_field_text(f)
            &&& advance(s, st) is Ok
            &&& token_text(advance(s, st)->Ok_0.1) == time_op_text(op)
        }),
{
}

/// The words of a parsed ordering: the field is written as its token
/// (`size` is read as any spelling of it), and the direction is `ASC` or
/// `DESC` as written, `DESC` when none is.
pub proof fn lemma_order_words(s: Seq<char>, st: PState)
    ensures
        p_order(s, st) matches Ok((ob, _)) ==> ({
            let st1 = expect(s, st, TokenOf::Sort)->Ok_0;
            let st2 = advance(s, st1)->Ok_0;
            &&& expect(s, st, TokenOf::Sort) is Ok
            &&& ob.field != SortField::Size ==> token_text(st1.1) == sort_field_text(ob.field)
            &&& advance(s, st1) is Ok
            &&& (st2.1 is Asc || st2.1 is Desc) ==> token_text(st2.1) == sort_direction_text(ob.direction)
            &&& !(st2.1 is Asc || st2.1 is Desc) ==> ob.direction == SortDirection::Desc
        }),
{
}

/// `LIMIT number`
pub open spec fn p_limit(s: Seq<char>, st: PState) -> Result<(usize, PState), int> {
    match expect(s, st, TokenOf::Limit) {
        Err(e) => Err(e),
        Ok(st1) => match st1.1 {
            TokenOf::Number(n) => match advance(s, st1) {
                Err(e) => Err(e),
                Ok(st2) => Ok((n as usize, st2)),
            },
            _ => Err(st1.0),
        },
    }
}

/// `query = expr order? limit?`
pub open spec fn p_query(s: Seq<char>, st: PState) -> Result<(QueryV, PState), int> {
    match p_or(s, st) {
        Err(e) => Err(e),
        Ok((expr, st1)) => {
            let o = if st1.1 is Sort {
                match p_order(s, st1) {
                    Err(e) => Err(e),
                    Ok((o, st2)) => Ok((Some(o), st2)),
                }
            } else {
                Ok((None, st1))
            };
            match o {
                Err(e) => Err(e),
                Ok((order, st2)) => {
                    if st2.1 is Limit {
                        match p_limit(s, st2) {
                            Err(e) => Err(e),
                            Ok((l, st3)) => Ok((QueryV { expr, order, limit: Some(l) }, st3)),
                        }
                    } else {
                        Ok((QueryV { expr, order, limit: None }, st2))
                    }
                },
            }
        },
    }
}

/// A complete query read from state `st`: the query, when reading it
/// ends at the end of the input; otherwise the position of the first error,
/// which for a token left over after the query is where reading stopped.
pub open spec fn p_complete(s: Seq<char>, st: PState) -> Result<QueryV, int> {
    match p_query(s, st) {
        Err(e) => Err(e),
        Ok((q, st2)) => if st2.1 is Eof {
            Ok(q)
        } else {
            Err(st2.0)
        },
    }
}

/// The query a text denotes, or the position of the first error. The
/// query must take up the whole text.
pub open spec fn parse_spec(s: Seq<char>) -> Result<QueryV, int> {
    match advance(s, (0, TokenOf::Eof)) {
        Err(e) => Err(e),
        Ok(st) => p_complete(s, st),
    }
}


// ---- The parser ----

/// The result is a parse error at position `p`.
pub open spec fn is_parse_error_at<T>(r: Result<T, LatticeError>, p: int) -> bool {
    r matches Err(LatticeError::ParseError { position, .. }) && position == p
}

/// An LQL parser: a lexer and the token it has read ahead.
pub struct Parser {
    lexer: Lexer,
    current: Token,
}

impl Parser {
    /// The characters of the query text.
    pub closed spec fn input(&self) -> Seq<char> {
        self.lexer.input()
    }

    /// The parser state: the lexer position and the current token.
    pub closed spec fn state(&self) -> PState {
        (self.lexer.cursor(), self.current@)
    }

    /// The lexer is within its input and the state is a reachable one.
    pub closed spec fn wf(&self) -> bool {
        self.lexer.wf() && st_wf(self.lexer.input(), (self.lexer.cursor(), self.current@))
    }

    /// A parser over `input`, with its first token read.
    pub fn new(input: &str) -> (r: Result<Parser, LatticeError>)
        ensures
            match advance(input@, (0, TokenOf::Eof)) {
                Ok(st) => r matches Ok(p) && p.wf() && p.input() == input@ && p.state() == st,
                Err(e) => is_parse_error_at(r, e),
            },
    {
        let mut lexer = Lexer::new(input);
        proof {
            lemma_lex_progress(input@, 0);
        }
        match lexer.next_token() {
            Ok(current) => Ok(Parser { lexer, current }),
            Err(e) => Err(e),
        }
    }

    fn error_here(&self, message: &str) -> (r: LatticeError)
        ensures
            r matches LatticeError::ParseError { position, .. } && position == self.state().0,
    {
        LatticeError::ParseError { position: self.lexer.position(), message: string_of(message) }
    }

    /// Move to the next token, handing back the one that was current.
    fn advance(&mut self) -> (r: Result<Token, LatticeError>)
        requires
            old(self).wf(),
        ensures
            final(self).input() == old(self).input(),
            match advance(old(self).input(), old(self).state()) {
                Ok(st) => r matches Ok(t) && t@ == old(self).state().1 && final(self).wf()
                    && final(self).state() == st
                    && no_larger(old(self).input(), st, old(self).state())
                    && (old(self).state().1 !is Eof ==> smaller(old(self).input(), st, old(self).state())),
                Err(e) => is_parse_error_at(r, e),
            },
    {
        proof {
            lemma_advance(self.input(), self.state());
        }
        match self.lexer.next_token() {
            Ok(t) => {
                let mut t = t;
                std::mem::swap(&mut self.current, &mut t);
                Ok(t)
            }
            Err(e) => Err(e),
        }
    }

    /// The current token is of the same kind as `expected`.
    fn check(&self, expected: &Token) -> (r: bool)
        ensures
            r == (token_kind(self.state().1) == token_kind(expected@)),
    {
        kind_of(&self.current) == kind_of(expected)
    }

    /// Consume a token of the kind of `expected`, or fail.
    fn expect(&mut self, expected: Token) -> (r: Result<Token, LatticeError>)
        requires
            old(self).wf(),
            expected@ !is Eof,
        ensures
            final(self).input() == old(self).input(),
            match expect(old(self).input(), old(self).state(), expected@) {
                Ok(st) => r is Ok && final(self).wf() && final(self).state() == st
                    && smaller(old(self).input(), st, old(self).state()),
                Err(e) => is_parse_error_at(r, e),
            },
    {
        if self.check(&expected) {
            self.advance()
        } else {
            Err(self.error_here("Unexpected token"))
        }
    }

    /// `identifier`, or one of the words `draft`, `review`, `approved`.
    fn parse_identifier(&mut self) -> (r: Result<String, LatticeError>)
        requires
            old(self).wf(),
        ensures
            final(self).input() == old(self).input(),
            match p_identifier(old(self).input(), old(self).state()) {
                Ok((x, st)) => r matches Ok(v) && v@ == x && final(self).wf() && final(self).state() == st
                    && smaller(old(self).input(), st, old(self).state()),
                Err(e) => is_parse_error_at(r, e),
            },
    {
        let word = match &self.current {
            TokenOf::Identifier(x) => x.clone(),
            TokenOf::Draft => string_of("draft"),
            TokenOf::Review => string_of("review"),
            TokenOf::Approved => string_of("approved"),
            _ => {
                return Err(self.error_here("Expected identifier"));
            },
        };
        match self.advance() {
            Ok(_) => Ok(word),
            Err(e) => Err(e),
        }
    }

    /// A quoted string, `*`, or an identifier.
    fn parse_tag_atom(&mut self) -> (r: Result<String, LatticeError>)
        requires
            old(self).wf(),
        ensures
            final(self).input() == old(self).input(),
            match p_tag_atom(old(self).input(), old(self).state()) {
                Ok((x, st)) => r matches Ok(v) && v@ == x && final(self).wf() && final(self).state() == st
                    && smaller(old(self).input(), st, old(self).state()),
                Err(e) => is_parse_error_at(r, e),
            },
    {
        let atom = match &self.current {
            TokenOf::String(x) => x.clone(),
            TokenOf::Star => string_of("*"),
            _ => {
                return self.parse_identifier();
            },
        };
        match self.advance() {
            Ok(_) => Ok(atom),
            Err(e) => Err(e),
        }
    }

    /// A tag segment: atoms joined by `/`.
    fn parse_tag_segment(&mut self) -> (r: Result<String, LatticeError>)
        requires
            old(self).wf(),
        ensures
            final(self).input() == old(self).input(),
            match p_tag_segment(old(self).input(), old(self).state()) {
                Ok((x, st)) => r matches Ok(v) && v@ == x && final(self).wf() && final(self).state() == st
                    && smaller(old(self).input(), st, old(self).state()),
                Err(e) => is_parse_error_at(r, e),
            },
    {
        let ghost s = self.input();
        let ghost st0 = self.state();
        let ghost goal = p_tag_segment(s, st0);
        let mut segment = match self.parse_tag_atom() {
            Ok(a) => a,
            Err(e) => {
                return Err(e);
            },
        };
        let mut failure: Option<LatticeError> = None;
        while self.check(&TokenOf::Slash)
            invariant_except_break
                self.wf(),
                self.input() == s,
                goal == p_segment_tail(s, self.state(), segment@),
                smaller(s, self.state(), st0),
                failure is None,
            ensures
                self.input() == s,
                match failure {
                    Some(e) => goal matches Err(p) && is_parse_error_at(Err::<(), LatticeError>(e), p),
                    None => self.wf() && goal == p_segment_tail(s, self.state(), segment@)
                        && smaller(s, self.state(), st0) && !(self.state().1 is Slash),
                },
            decreases measure(s, self.state()),
        {
            let ghost st = self.state();
            match self.advance() {
                Ok(_) => {},
                Err(e) => {
                    failure = Some(e);
                    break;
                },
            }
            let next = match self.parse_tag_atom() {
                Ok(a) => a,
                Err(e) => {
                    failure = Some(e);
                    break;
                },
            };
            push_char(&mut segment, '/');
            segment.append(next.as_str());
        }
        match failure {
            Some(e) => Err(e),
            None => Ok(segment),
        }
    }

    /// A tag path after its leading colon: segments separated by `:`.
    fn parse_tag_path(&mut self) -> (r: Result<Vec<String>, LatticeError>)
        requires
            old(self).wf(),
        ensures
            final(self).input() == old(self).input(),
            match p_tag_path(old(self).input(), old(self).state()) {
                Ok((x, st)) => r matches Ok(v) && string_views(v@) == x && final(self).wf()
                    && final(self).state() == st && smaller(old(self).input(), st, old(self).state()),
                Err(e) => is_parse_error_at(r, e),
            },
    {
        let ghost s = self.input();
        let ghost st0 = self.state();
        let ghost goal = p_tag_path(s, st0);
        let first = match self.parse_tag_segment() {
            Ok(a) => a,
            Err(e) => {
                return Err(e);
            },
        };
        let mut path: Vec<String> = Vec::new();
        path.push(first);
        assert(string_views(path@) =~= seq![path@[0]@]);
        let mut failure: Option<LatticeError> = None;
        while self.check(&TokenOf::Colon)
            invariant_except_break
                self.wf(),
                self.input() == s,
                goal == p_path_tail(s, self.state(), string_views(path@)),
                smaller(s, self.state(), st0),
                failure is None,
            ensures
                self.input() == s,
                match failure {
                    Some(e) => goal matches Err(p) && is_parse_error_at(Err::<(), LatticeError>(e), p),
                    None => self.wf() && goal == p_path_tail(s, self.state(), string_views(path@))
                        && smaller(s, self.state(), st0) && !(self.state().1 is Colon),
                },
            decreases measure(s, self.state()),
        {
            match self.advance() {
                Ok(_) => {},
                Err(e) => {
                    failure = Some(e);
                    break;
                },
            }
            let seg = match self.parse_tag_segment() {
                Ok(a) => a,
                Err(e) => {
                    failure = Some(e);
                    break;
                },
            };
            let ghost before = string_views(path@);
            path.push(seg);
            assert(string_views(path@) =~= before.push(path@[path@.len() - 1]@));
        }
        match failure {
            Some(e) => Err(e),
            None => Ok(path),
        }
    }

    /// `tag : path`
    fn parse_tag_predicate(&mut self) -> (r: Result<Predicate, LatticeError>)
        requires
            old(self).wf(),
        ensures
            final(self).input() == old(self).input(),
            match p_tag_pred(old(self).input(), old(self).state()) {
                Ok((x, st)) => r matches Ok(v) && v@ == x && final(self).wf() && final(self).state() == st
                    && smaller(old(self).input(), st, old(self).state()),
                Err(e) => is_parse_error_at(r, e),
            },
    {
        match self.expect(TokenOf::Tag) {
            Ok(_) => {},
            Err(e) => {
                return Err(e);
            },
        }
        match self.expect(TokenOf::Colon) {
            Ok(_) => {},
            Err(e) => {
                return Err(e);
            },
        }
        match self.parse_tag_path() {
            Ok(path) => Ok(Predicate::Tag { path }),
            Err(e) => Err(e),
        }
    }

    /// `type : *`, `type : major`, `type : major / *` or `type : major / minor`.
    fn parse_type_predicate(&mut self) -> (r: Result<Predicate, LatticeError>)
        requires
            old(self).wf(),
        ensures
            final(self).input() == old(self).input(),
            match p_type_pred(old(self).input(), old(self).state()) {
                Ok((x, st)) => r matches Ok(v) && v@ == x && final(self).wf() && final(self).state() == st
                    && smaller(old(self).input(), st, old(self).state()),
                Err(e) => is_parse_error_at(r, e),
            },
    {
        match self.expect(TokenOf::Type) {
            Ok(_) => {},
            Err(e) => {
                return Err(e);
            },
        }
        match self.expect(TokenOf::Colon) {
            Ok(_) => {},
            Err(e) => {
                return Err(e);
            },
        }
        if self.check(&TokenOf::Star) {
            return match self.advance() {
                Ok(_) => Ok(Predicate::Type { mime: MimePattern { major: string_of("*"), minor: None } }),
                Err(e) => Err(e),
            };
        }
        let major = match self.parse_identifier() {
            Ok(m) => m,
            Err(e) => {
                return Err(e);
            },
        };
        if !self.check(&TokenOf::Slash) {
            return Ok(
                Predicate::Type { mime: MimePattern { major: string_of("application"), minor: Some(major) } },
            );
        }
        match self.expect(TokenOf::Slash) {
            Ok(_) => {},
            Err(e) => {
                return Err(e);
            },
        }
        if self.check(&TokenOf::Star) {
            match self.advance() {
                Ok(_) => Ok(Predicate::Type { mime: MimePattern { major, minor: None } }),
                Err(e) => Err(e),
            }
        } else {
            match self.parse_identifier() {
                Ok(minor) => Ok(Predicate::Type { mime: MimePattern { major, minor: Some(minor) } }),
                Err(e) => Err(e),
            }
        }
    }

    /// `state : value`
    fn parse_state_predicate(&mut self) -> (r: Result<Predicate, LatticeError>)
        requires
            old(self).wf(),
        ensures
            final(self).input() == old(self).input(),
            match p_state_pred(old(self).input(), old(self).state()) {
                Ok((x, st)) => r matches Ok(v) && v@ == x && final(self).wf() && final(self).state() == st
                    && smaller(old(self).input(), st, old(self).state()),
                Err(e) => is_parse_error_at(r, e),
            },
    {
        match self.expect(TokenOf::State) {
            Ok(_) => {},
            Err(e) => {
                return Err(e);
            },
        }
        match self.expect(TokenOf::Colon) {
            Ok(_) => {},
            Err(e) => {
                return Err(e);
            },
        }
        let state = match &self.current {
            TokenOf::Draft => State::Draft,
            TokenOf::Review => State::Review,
            TokenOf::Approved => State::Approved,
            TokenOf::Discarded => State::Discarded,
            TokenOf::Sealed => State::Sealed,
            TokenOf::Archived => State::Archived,
            _ => {
                return Err(self.error_here("Expected state value (draft|review|approved|discarded|sealed|archived)"));
            },
        };
        match self.advance() {
            Ok(_) => Ok(Predicate::State { state }),
            Err(e) => Err(e),
        }
    }

    /// `trust op level`
    fn parse_trust_predicate(&mut self) -> (r: Result<Predicate, LatticeError>)
        requires
            old(self).wf(),
        ensures
            final(self).input() == old(self).input(),
            match p_trust_pred(old(self).input(), old(self).state()) {
                Ok((x, st)) => r matches Ok(v) && v@ == x && final(self).wf() && final(self).state() == st
                    && smaller(old(self).input(), st, old(self).state()),
                Err(e) => is_parse_error_at(r, e),
            },
    {
        match self.expect(TokenOf::Trust) {
            Ok(_) => {},
            Err(e) => {
                return Err(e);
            },
        }
        let op = match &self.current {
            TokenOf::Eq => CompareOp::Eq,
            TokenOf::Ne => CompareOp::Ne,
            TokenOf::Gt => CompareOp::Gt,
            TokenOf::Lt => CompareOp::Lt,
            TokenOf::Ge => CompareOp::Ge,
            TokenOf::Le => CompareOp::Le,
            _ => {
                return Err(self.error_here("Expected comparison operator"));
            },
        };
        match self.advance() {
            Ok(_) => {},
            Err(e) => {
                return Err(e);
            },
        }
        let level = match &self.current {
            TokenOf::Untrusted => TrustLevel::Untrusted,
            TokenOf::Quarantined => TrustLevel::Quarantined,
            TokenOf::Trusted => TrustLevel::Trusted,
            TokenOf::Approved => TrustLevel::Approved,
            TokenOf::Number(n) => TrustLevel::Numeric(*n as u8),
            TokenOf::Identifier(x) => {
                let lower = to_lowercase(x.as_str());
                if str_eq(lower.as_str(), "medium") {
                    TrustLevel::Numeric(50)
                } else {
                    return Err(self.error_here("Expected trust level"));
                }
            },
            _ => {
                return Err(self.error_here("Expected trust level"));
            },
        };
        match self.advance() {
            Ok(_) => Ok(Predicate::Trust { op, level }),
            Err(e) => Err(e),
        }
    }

    /// A timestamp value in Unix microseconds.
    fn parse_timestamp_value(&mut self) -> (r: Result<i64, LatticeError>)
        requires
            old(self).wf(),
        ensures
            final(self).input() == old(self).input(),
            match p_timestamp(old(self).input(), old(self).state()) {
                Ok((x, st)) => r == Ok::<i64, LatticeError>(x) && final(self).wf() && final(self).state() == st
                    && smaller(old(self).input(), st, old(self).state()),
                Err(e) => is_parse_error_at(r, e),
            },
    {
        let raw = match &self.current {
            TokenOf::Timestamp(x) => x.clone(),
            TokenOf::String(x) => x.clone(),
            TokenOf::Number(n) => {
                let n = *n;
                return match self.advance() {
                    Ok(_) => Ok(n.wrapping_mul(1_000_000)),
                    Err(e) => Err(e),
                };
            },
            _ => {
                return Err(self.error_here("Expected timestamp"));
            },
        };
        match self.advance() {
            Ok(_) => {},
            Err(e) => {
                return Err(e);
            },
        }
        match timestamp_to_micros(raw.as_str()) {
            Some(m) => Ok(m),
            None => Err(self.error_here("Invalid timestamp")),
        }
    }

    /// `field op value`
    fn parse_time_predicate(&mut self) -> (r: Result<Predicate, LatticeError>)
        requires
            old(self).wf(),
        ensures
            final(self).input() == old(self).input(),
            match p_time_pred(old(self).input(), old(self).state()) {
                Ok((x, st)) => r matches Ok(v) && v@ == x && final(self).wf() && final(self).state() == st
                    && smaller(old(self).input(), st, old(self).state()),
                Err(e) => is_parse_error_at(r, e),
            },
    {
        let field = match &self.current {
            TokenOf::Updated => TimeField::Updated,
            TokenOf::Created => TimeField::Created,
            _ => {
                return Err(self.error_here("Expected time field (updated|created)"));
            },
        };
        match self.advance() {
            Ok(_) => {},
            Err(e) => {
                return Err(e);
            },
        }
        let op = match &self.current {
            TokenOf::Within => TimeOp::Within,
            TokenOf::Before => TimeOp::Before,
            TokenOf::After => TimeOp::After,
            TokenOf::Between => TimeOp::Between,
            _ => {
                return Err(self.error_here("Expected time operator (within|before|after|between)"));
            },
        };
        match self.advance() {
            Ok(_) => {},
            Err(e) => {
                return Err(e);
            },
        }
        let value = match op {
            TimeOp::Within => {
                let d = match &self.current {
                    TokenOf::Duration(d) => *d,
                    _ => {
                        return Err(self.error_here("Expected duration after 'within'"));
                    },
                };
                match self.advance() {
                    Ok(_) => {},
                    Err(e) => {
                        return Err(e);
                    },
                }
                TimeValue::Duration(d)
            },
            TimeOp::Between => {
                let start = match self.parse_timestamp_value() {
                    Ok(t) => t,
                    Err(e) => {
                        return Err(e);
                    },
                };
                let end = match self.parse_timestamp_value() {
                    Ok(t) => t,
                    Err(e) => {
                        return Err(e);
                    },
                };
                TimeValue::Range { start, end }
            },
            _ => {
                match self.parse_timestamp_value() {
                    Ok(t) => TimeValue::Timestamp(t),
                    Err(e) => {
                        return Err(e);
                    },
                }
            },
        };
        Ok(Predicate::Time { field, op, value })
    }

    /// An object reference: `ref : <ref>`, an ID or hash, `tag : path`, or an alias.
    fn parse_object_ref(&mut self) -> (r: Result<ObjectRef, LatticeError>)
        requires
            old(self).wf(),
        ensures
            final(self).input() == old(self).input(),
            match p_object_ref(old(self).input(), old(self).state()) {
                Ok((x, st)) => r matches Ok(v) && v@ == x && final(self).wf() && final(self).state() == st
                    && smaller(old(self).input(), st, old(self).state()),
                Err(e) => is_parse_error_at(r, e),
            },
        decreases measure(old(self).input(), old(self).state()),
    {
        match &self.current {
            TokenOf::Ref => {
                match self.advance() {
                    Ok(_) => {},
                    Err(e) => {
                        return Err(e);
                    },
                }
                match self.expect(TokenOf::Colon) {
                    Ok(_) => {},
                    Err(e) => {
                        return Err(e);
                    },
                }
                self.parse_object_ref()
            },
            TokenOf::Identifier(x) => {
                let x = x.clone();
                match self.advance() {
                    Ok(_) => {},
                    Err(e) => {
                        return Err(e);
                    },
                }
                match parse_uuid(x.as_str()) {
                    Some(u) => Ok(ObjectRef::Id(ObjectID::from_uuid(u))),
                    None => Ok(ObjectRef::Hash(x)),
                }
            },
            TokenOf::Tag => {
                match self.advance() {
                    Ok(_) => {},
                    Err(e) => {
                        return Err(e);
                    },
                }
                match self.expect(TokenOf::Colon) {
                    Ok(_) => {},
                    Err(e) => {
                        return Err(e);
                    },
                }
                match self.parse_tag_path() {
                    Ok(path) => Ok(ObjectRef::Tag(path)),
                    Err(e) => Err(e),
                }
            },
            TokenOf::String(x) => {
                let x = x.clone();
                match self.advance() {
                    Ok(_) => Ok(ObjectRef::Alias(x)),
                    Err(e) => Err(e),
                }
            },
            _ => Err(self.error_here("Expected object reference")),
        }
    }

    /// `ref : <ref>`
    fn parse_ref_predicate(&mut self) -> (r: Result<Predicate, LatticeError>)
        requires
            old(self).wf(),
            old(self).state().1 is Ref,
        ensures
            final(self).input() == old(self).input(),
            match p_ref_like(old(self).input(), old(self).state()) {
                Ok((x, st)) => r matches Ok(v) && v@ == x && final(self).wf() && final(self).state() == st
                    && smaller(old(self).input(), st, old(self).state()),
                Err(e) => is_parse_error_at(r, e),
            },
    {
        match self.expect(TokenOf::Ref) {
            Ok(_) => {},
            Err(e) => {
                return Err(e);
            },
        }
        match self.expect(TokenOf::Colon) {
            Ok(_) => {},
            Err(e) => {
                return Err(e);
            },
        }
        match self.parse_object_ref() {
            Ok(reference) => Ok(Predicate::Ref { reference }),
            Err(e) => Err(e),
        }
    }

    /// `references ( <ref> )`
    fn parse_references_predicate(&mut self) -> (r: Result<Predicate, LatticeError>)
        requires
            old(self).wf(),
            old(self).state().1 is References,
        ensures
            final(self).input() == old(self).input(),
            match p_ref_like(old(self).input(), old(self).state()) {
                Ok((x, st)) => r matches Ok(v) && v@ == x && final(self).wf() && final(self).state() == st
                    && smaller(old(self).input(), st, old(self).state()),
                Err(e) => is_parse_error_at(r, e),
            },
    {
        match self.expect(TokenOf::References) {
            Ok(_) => {},
            Err(e) => {
                return Err(e);
            },
        }
        match self.expect(TokenOf::LParen) {
            Ok(_) => {},
            Err(e) => {
                return Err(e);
            },
        }
        let target = match self.parse_object_ref() {
            Ok(t) => t,
            Err(e) => {
                return Err(e);
            },
        };
        match self.expect(TokenOf::RParen) {
            Ok(_) => Ok(Predicate::References { target }),
            Err(e) => Err(e),
        }
    }

    /// `closure ( <ref> )`
    fn parse_closure_predicate(&mut self) -> (r: Result<Predicate, LatticeError>)
        requires
            old(self).wf(),
            old(self).state().1 is Closure,
        ensures
            final(self).input() == old(self).input(),
            match p_ref_like(old(self).input(), old(self).state()) {
                Ok((x, st)) => r matches Ok(v) && v@ == x && final(self).wf() && final(self).state() == st
                    && smaller(old(self).input(), st, old(self).state()),
                Err(e) => is_parse_error_at(r, e),
            },
    {
        match self.expect(TokenOf::Closure) {
            Ok(_) => {},
            Err(e) => {
                return Err(e);
            },
        }
        match self.expect(TokenOf::LParen) {
            Ok(_) => {},
            Err(e) => {
                return Err(e);
            },
        }
        let root = match self.parse_object_ref() {
            Ok(t) => t,
            Err(e) => {
                return Err(e);
            },
        };
        match self.expect(TokenOf::RParen) {
            Ok(_) => Ok(Predicate::Closure { root }),
            Err(e) => Err(e),
        }
    }

    /// A predicate.
    fn parse_predicate(&mut self) -> (r: Result<Predicate, LatticeError>)
        requires
            old(self).wf(),
        ensures
            final(self).input() == old(self).input(),
            match p_predicate(old(self).input(), old(self).state()) {
                Ok((x, st)) => r matches Ok(v) && v@ == x && final(self).wf() && final(self).state() == st
                    && smaller(old(self).input(), st, old(self).state()),
                Err(e) => is_parse_error_at(r, e),
            },
    {
        match &self.current {
            TokenOf::Tag => self.parse_tag_predicate(),
            TokenOf::Type => self.parse_type_predicate(),
            TokenOf::State => self.parse_state_predicate(),
            TokenOf::Trust => self.parse_trust_predicate(),
            TokenOf::Updated | TokenOf::Created => self.parse_time_predicate(),
            TokenOf::Ref => self.parse_ref_predicate(),
            TokenOf::References => self.parse_references_predicate(),
            TokenOf::Closure => self.parse_closure_predicate(),
            _ => Err(self.error_here("Expected predicate")),
        }
    }

    /// `term = NOT term | ( expr ) | predicate`
    fn parse_term(&mut self) -> (r: Result<Expr, LatticeError>)
        requires
            old(self).wf(),
        ensures
            final(self).input() == old(self).input(),
            match p_term(old(self).input(), old(self).state()) {
                Ok((x, st)) => r matches Ok(v) && v@ == x && final(self).wf() && final(self).state() == st
                    && smaller(old(self).input(), st, old(self).state()),
                Err(e) => is_parse_error_at(r, e),
            },
        decreases measure(old(self).input(), old(self).state()), 0int,
    {
        match &self.current {
            TokenOf::Not => {
                match self.advance() {
                    Ok(_) => {},
                    Err(e) => {
                        return Err(e);
                    },
                }
                match self.parse_term() {
                    Ok(t) => Ok(Expr::not(t)),
                    Err(e) => Err(e),
                }
            },
            TokenOf::LParen => {
                match self.advance() {
                    Ok(_) => {},
                    Err(e) => {
                        return Err(e);
                    },
                }
                let expr = match self.parse_expr() {
                    Ok(x) => x,
                    Err(e) => {
                        return Err(e);
                    },
                };
                match self.expect(TokenOf::RParen) {
                    Ok(_) => Ok(expr),
                    Err(e) => Err(e),
                }
            },
            _ => match self.parse_predicate() {
                Ok(p) => Ok(Expr::predicate(p)),
                Err(e) => Err(e),
            },
        }
    }

    /// `and_expr = term (AND term)*`
    fn parse_and(&mut self) -> (r: Result<Expr, LatticeError>)
        requires
            old(self).wf(),
        ensures
            final(self).input() == old(self).input(),
            match p_and(old(self).input(), old(self).state()) {
                Ok((x, st)) => r matches Ok(v) && v@ == x && final(self).wf() && final(self).state() == st
                    && smaller(old(self).input(), st, old(self).state()),
                Err(e) => is_parse_error_at(r, e),
            },
        decreases measure(old(self).input(), old(self).state()), 2int,
    {
        let ghost s = self.input();
        let ghost st0 = self.state();
        let ghost goal = p_and(s, st0);
        let mut left = match self.parse_term() {
            Ok(t) => t,
            Err(e) => {
                return Err(e);
            },
        };
        let mut failure: Option<LatticeError> = None;
        while self.check(&TokenOf::And)
            invariant_except_break
                s == old(self).input(),
                st0 == old(self).state(),
                self.wf(),
                self.input() == s,
                goal == p_and_tail(s, self.state(), left@),
                smaller(s, self.state(), st0),
                failure is None,
            ensures
                self.input() == s,
                match failure {
                    Some(e) => goal matches Err(p) && is_parse_error_at(Err::<(), LatticeError>(e), p),
                    None => self.wf() && goal == p_and_tail(s, self.state(), left@)
                        && smaller(s, self.state(), st0) && !(self.state().1 is And),
                },
            decreases measure(s, self.state()),
        {
            match self.advance() {
                Ok(_) => {},
                Err(e) => {
                    failure = Some(e);
                    break;
                },
            }
            let right = match self.parse_term() {
                Ok(t) => t,
                Err(e) => {
                    failure = Some(e);
                    break;
                },
            };
            left = Expr::and(left, right);
        }
        match failure {
            Some(e) => Err(e),
            None => Ok(left),
        }
    }

    /// `or_expr = and_expr (OR and_expr)*`
    fn parse_or(&mut self) -> (r: Result<Expr, LatticeError>)
        requires
            old(self).wf(),
        ensures
            final(self).input() == old(self).input(),
            match p_or(old(self).input(), old(self).state()) {
                Ok((x, st)) => r matches Ok(v) && v@ == x && final(self).wf() && final(self).state() == st
                    && smaller(old(self).input(), st, old(self).state()),
                Err(e) => is_parse_error_at(r, e),
            },
        decreases measure(old(self).input(), old(self).state()), 4int,
    {
        let ghost s = self.input();
        let ghost st0 = self.state();
        let ghost goal = p_or(s, st0);
        let mut left = match self.parse_and() {
            Ok(t) => t,
            Err(e) => {
                return Err(e);
            },
        };
        let mut failure: Option<LatticeError> = None;
        while self.check(&TokenOf::Or)
            invariant_except_break
                s == old(self).input(),
                st0 == old(self).state(),
                self.wf(),
                self.input() == s,
                goal == p_or_tail(s, self.state(), left@),
                smaller(s, self.state(), st0),
                failure is None,
            ensures
                self.input() == s,
                match failure {
                    Some(e) => goal matches Err(p) && is_parse_error_at(Err::<(), LatticeError>(e), p),
                    None => self.wf() && goal == p_or_tail(s, self.state(), left@)
                        && smaller(s, self.state(), st0) && !(self.state().1 is Or),
                },
            decreases measure(s, self.state()),
        {
            match self.advance() {
                Ok(_) => {},
                Err(e) => {
                    failure = Some(e);
                    break;
                },
            }
            let right = match self.parse_and() {
                Ok(t) => t,
                Err(e) => {
                    failure = Some(e);
                    break;
                },
            };
            left = Expr::or(left, right);
        }
        match failure {
            Some(e) => Err(e),
            None => Ok(left),
        }
    }

    /// `expr = or_expr`
    fn parse_expr(&mut self) -> (r: Result<Expr, LatticeError>)
        requires
            old(self).wf(),
        ensures
            final(self).input() == old(self).input(),
            match p_or(old(self).input(), old(self).state()) {
                Ok((x, st)) => r matches Ok(v) && v@ == x && final(self).wf() && final(self).state() == st
                    && smaller(old(self).input(), st, old(self).state()),
                Err(e) => is_parse_error_at(r, e),
            },
        decreases measure(old(self).input(), old(self).state()), 5int,
    {
        self.parse_or()
    }

    /// `SORT field direction?` (the direction defaults to descending)
    fn parse_order(&mut self) -> (r: Result<OrderBy, LatticeError>)
        requires
            old(self).wf(),
        ensures
            final(self).input() == old(self).input(),
            match p_order(old(self).input(), old(self).state()) {
                Ok((x, st)) => r == Ok::<OrderBy, LatticeError>(x) && final(self).wf() && final(self).state() == st
                    && smaller(old(self).input(), st, old(self).state()),
                Err(e) => is_parse_error_at(r, e),
            },
    {
        match self.expect(TokenOf::Sort) {
            Ok(_) => {},
            Err(e) => {
                return Err(e);
            },
        }
        let field = match &self.current {
            TokenOf::Updated => SortField::Updated,
            TokenOf::Created => SortField::Created,
            TokenOf::Identifier(x) => {
                let lower = to_lowercase(x.as_str());
                if str_eq(lower.as_str(), "size") {
                    SortField::Size
                } else {
                    return Err(self.error_here("Expected sort field"));
                }
            },
            TokenOf::Trust => SortField::Trust,
            _ => {
                return Err(self.error_here("Expected sort field"));
            },
        };
        match self.advance() {
            Ok(_) => {},
            Err(e) => {
                return Err(e);
            },
        }
        let direction = match &self.current {
            TokenOf::Asc => SortDirection::Asc,
            TokenOf::Desc => SortDirection::Desc,
            _ => {
                return Ok(OrderBy { field, direction: SortDirection::Desc });
            },
        };
        match self.advance() {
            Ok(_) => Ok(OrderBy { field, direction }),
            Err(e) => Err(e),
        }
    }

    /// `LIMIT number`
    fn parse_limit(&mut self) -> (r: Result<usize, LatticeError>)
        requires
            old(self).wf(),
        ensures
            final(self).input() == old(self).input(),
            match p_limit(old(self).input(), old(self).state()) {
                Ok((x, st)) => r == Ok::<usize, LatticeError>(x) && final(self).wf() && final(self).state() == st
                    && smaller(old(self).input(), st, old(self).state()),
                Err(e) => is_parse_error_at(r, e),
            },
    {
        match self.expect(TokenOf::Limit) {
            Ok(_) => {},
            Err(e) => {
                return Err(e);
            },
        }
        let n = match &self.current {
            TokenOf::Number(n) => *n as usize,
            _ => {
                return Err(self.error_here("Expected number after LIMIT"));
            },
        };
        match self.advance() {
            Ok(_) => Ok(n),
            Err(e) => Err(e),
        }
    }

    /// `query = expr order? limit?`
    fn parse_query(&mut self) -> (r: Result<Query, LatticeError>)
        requires
            old(self).wf(),
        ensures
            final(self).input() == old(self).input(),
            match p_query(old(self).input(), old(self).state()) {
                Ok((x, st)) => r matches Ok(v) && v@ == x && final(self).wf() && final(self).state() == st,
                Err(e) => is_parse_error_at(r, e),
            },
    {
        let expr = match self.parse_expr() {
            Ok(x) => x,
            Err(e) => {
                return Err(e);
            },
        };
        let order = if self.check(&TokenOf::Sort) {
            match self.parse_order() {
                Ok(o) => Some(o),
                Err(e) => {
                    return Err(e);
                },
            }
        } else {
            None
        };
        let limit = if self.check(&TokenOf::Limit) {
            match self.parse_limit() {
                Ok(l) => Some(l),
                Err(e) => {
                    return Err(e);
                },
            }
        } else {
            None
        };
        Ok(Query { expr, order, limit })
    }

    /// Parse a complete query from the current token on: the query, when
    /// it reaches the end of the input; a parse error where reading stopped
    /// when a token is left over.
    pub fn parse(&mut self) -> (r: Result<Query, LatticeError>)
        requires
            old(self).wf(),
        ensures
            final(self).input() == old(self).input(),
            match p_complete(old(self).input(), old(self).state()) {
                Ok(x) => r matches Ok(v) && v@ == x,
                Err(e) => is_parse_error_at(r, e),
            },
    {
        let q = match self.parse_query() {
            Ok(q) => q,
            Err(e) => {
                return Err(e);
            },
        };
        match &self.current {
            TokenOf::Eof => Ok(q),
            _ => Err(self.error_here("Unexpected token after the end of the query")),
        }
    }
}

/// Parse an LQL query string: the query it denotes, or a parse error at the
/// position (in characters) where reading stopped. Text left over after a
/// complete query is an error.
pub fn parse(input: &str) -> (r: Result<Query, LatticeError>)
    ensures
        match parse_spec(input@) {
            Ok(q) => r matches Ok(v) && v@ == q,
            Err(e) => is_parse_error_at(r, e),
        },
{
    let mut parser = match Parser::new(input) {
        Ok(p) => p,
        Err(e) => {
            return Err(e);
        },
    };
    parser.parse()
}

} // verus!
