//! Character and string helpers shared by the parsers of this crate.

use vstd::prelude::*;
use vstd::utf8::is_ascii_chars;

verus! {

/// What `str::to_lowercase` returns for a string with these characters
/// (Unicode lowercase mapping).
pub uninterp spec fn unicode_lowercase(s: Seq<char>) -> Seq<char>;

/// Whether `char::is_whitespace` holds (Unicode `White_Space`).
pub uninterp spec fn unicode_whitespace(c: char) -> bool;

/// Whether `char::is_alphabetic` holds (Unicode `Alphabetic`).
pub uninterp spec fn unicode_alphabetic(c: char) -> bool;

/// Whether `char::is_alphanumeric` holds (Unicode `Alphabetic` or `Numeric`).
pub uninterp spec fn unicode_alphanumeric(c: char) -> bool;

pub open spec fn is_ascii_char(c: char) -> bool {
    '\0' <= c <= '\u{7f}'
}

pub open spec fn is_ascii_upper(c: char) -> bool {
    'A' <= c <= 'Z'
}

pub open spec fn is_ascii_lower(c: char) -> bool {
    'a' <= c <= 'z'
}

pub open spec fn is_digit_char(c: char) -> bool {
    '0' <= c <= '9'
}

pub open spec fn ascii_lower_char(c: char) -> char {
    if is_ascii_upper(c) {
        ((c as u32) + 32) as char
    } else {
        c
    }
}

pub open spec fn ascii_lowercase(s: Seq<char>) -> Seq<char> {
    Seq::new(s.len(), |i: int| ascii_lower_char(s[i]))
}

/// `str::to_lowercase`. Claimed: the result is the Unicode lowercase mapping of
/// the input, and on ASCII input it maps `A`..=`Z` to `a`..=`z` and keeps every
/// other character.
#[verifier::external_body]
pub(crate) fn to_lowercase(s: &str) -> (r: String)
    ensures
        r@ == unicode_lowercase(s@),
        is_ascii_chars(s@) ==> r@ == ascii_lowercase(s@),
{
    s.to_lowercase()
}

/// `char::is_whitespace`. Claimed: the result is the Unicode `White_Space`
/// property; on ASCII it holds exactly for space, `\t`, `\n`, `\x0B`, `\x0C`, `\r`.
#[verifier::external_body]
pub(crate) fn is_whitespace(c: char) -> (r: bool)
    ensures
        r == unicode_whitespace(c),
        is_ascii_char(c) ==> (r <==> (c == ' ' || c == '\t' || c == '\n' || c == '\x0B'
            || c == '\x0C' || c == '\r')),
{
    c.is_whitespace()
}

/// `char::is_alphabetic`. Claimed: the Unicode `Alphabetic` property; on ASCII
/// it holds exactly for the letters.
#[verifier::external_body]
pub(crate) fn is_alphabetic(c: char) -> (r: bool)
    ensures
        r == unicode_alphabetic(c),
        is_ascii_char(c) ==> (r <==> (is_ascii_upper(c) || is_ascii_lower(c))),
{
    c.is_alphabetic()
}

/// `char::is_alphanumeric`. Claimed: `Alphabetic` or `Numeric`; on ASCII it
/// holds exactly for letters and digits.
#[verifier::external_body]
pub(crate) fn is_alphanumeric(c: char) -> (r: bool)
    ensures
        r == unicode_alphanumeric(c),
        is_ascii_char(c) ==> (r <==> (is_ascii_upper(c) || is_ascii_lower(c) || is_digit_char(
            c,
        ))),
{
    c.is_alphanumeric()
}

/// `String::push`. Claimed: the character is appended.
#[verifier::external_body]
pub(crate) fn push_char(s: &mut String, c: char)
    ensures
        final(s)@ == old(s)@.push(c),
{
    s.push(c)
}

/// A new string holding the given text.
pub fn string_of(s: &str) -> (r: String)
    ensures
        r@ == s@,
{
    s.to_owned()
}

/// The characters of a string slice, in order.
pub fn chars_of(s: &str) -> (r: Vec<char>)
    ensures
        r@ == s@,
{
    let mut out: Vec<char> = Vec::new();
    let n = s.unicode_len();
    let mut i: usize = 0;
    while i < n
        invariant
            n == s@.len(),
            i <= n,
            out@ == s@.subrange(0, i as int),
        decreases n - i,
    {
        out.push(s.get_char(i));
        i = i + 1;
    }
    assert(out@ =~= s@);
    out
}

/// A string made of the characters `v[from..to]`.
pub fn string_from_chars(v: &Vec<char>, from: usize, to: usize) -> (r: String)
    requires
        from <= to <= v.len(),
    ensures
        r@ == v@.subrange(from as int, to as int),
{
    let mut out = String::new();
    let mut i = from;
    while i < to
        invariant
            from <= i <= to <= v.len(),
            out@ == v@.subrange(from as int, i as int),
        decreases to - i,
    {
        push_char(&mut out, v[i]);
        i = i + 1;
        assert(out@ =~= v@.subrange(from as int, i as int));
    }
    out
}

/// Whether the characters of `v` are exactly those of `lit`.
pub fn chars_eq_str(v: &[char], lit: &str) -> (r: bool)
    ensures
        r == (v@ == lit@),
{
    let n = lit.unicode_len();
    if v.len() != n {
        return false;
    }
    let mut i: usize = 0;
    while i < n
        invariant
            n == lit@.len(),
            n == v@.len(),
            i <= n,
            forall|j: int| 0 <= j < i ==> v@[j] == lit@[j],
        decreases n - i,
    {
        if v[i] != lit.get_char(i) {
            return false;
        }
        i = i + 1;
    }
    assert(v@ =~= lit@);
    true
}

/// Whether two strings hold the same text.
pub fn str_eq(a: &str, b: &str) -> (r: bool)
    ensures
        r == (a@ == b@),
{
    let av = chars_of(a);
    chars_eq_str(av.as_slice(), b)
}


/// `c` does not occur in `s` before index `i`.
pub open spec fn absent_before(s: Seq<char>, c: char, i: int) -> bool {
    forall|j: int| 0 <= j < i ==> s[j] != c
}

/// `i` is the index of the first `c` in `s`.
pub open spec fn is_first_index(s: Seq<char>, c: char, i: int) -> bool {
    0 <= i < s.len() && s[i] == c && absent_before(s, c, i)
}

/// The index (in characters) of the first `c` in `s`, if any.
pub fn find_char(s: &str, c: char) -> (r: Option<usize>)
    ensures
        match r {
            Some(i) => is_first_index(s@, c, i as int),
            None => absent_before(s@, c, s@.len() as int),
        },
{
    let v = chars_of(s);
    let n = v.len();
    let mut i: usize = 0;
    while i < n
        invariant
            n == v@.len(),
            v@ == s@,
            i <= n,
            absent_before(s@, c, i as int),
        decreases n - i,
    {
        if v[i] == c {
            return Some(i);
        }
        i = i + 1;
    }
    None
}

/// Whether `p` is a prefix of `s`.
pub fn starts_with(s: &str, p: &str) -> (r: bool)
    ensures
        r == p@.is_prefix_of(s@),
{
    let sv = chars_of(s);
    let pv = chars_of(p);
    if pv.len() > sv.len() {
        return false;
    }
    let mut i: usize = 0;
    while i < pv.len()
        invariant
            pv@ == p@,
            sv@ == s@,
            pv@.len() <= sv@.len(),
            i <= pv@.len(),
            forall|j: int| 0 <= j < i ==> pv@[j] == sv@[j],
        decreases pv@.len() - i,
    {
        if pv[i] != sv[i] {
            return false;
        }
        i = i + 1;
    }
    true
}

/// The length of the sign that `str::parse` accepts at the front of integer
/// text: `+`, or `-` for a signed type.
pub open spec fn sign_len(t: Seq<char>, signed: bool) -> int {
    if t.len() > 0 && (t[0] == '+' || (signed && t[0] == '-')) { 1 } else { 0 }
}

/// The value of a string of decimal digits.
pub open spec fn digits_value(d: Seq<char>) -> nat
    decreases d.len(),
{
    if d.len() == 0 {
        0
    } else {
        digits_value(d.drop_last()) * 10 + ((d.last() as int - '0' as int) as nat)
    }
}

/// All characters are ASCII digits.
pub open spec fn all_digits(d: Seq<char>) -> bool {
    forall|i: int| 0 <= i < d.len() ==> '0' <= #[trigger] d[i] <= '9'
}

/// Integer text as `str::parse` reads it for a signed (`signed`) or unsigned
/// type, before the range check: an optional sign and at least one digit.
pub open spec fn int_text_value(t: Seq<char>, signed: bool) -> Option<int> {
    let digits = t.subrange(sign_len(t, signed), t.len() as int);
    if digits.len() == 0 || !all_digits(digits) {
        None
    } else {
        let v = digits_value(digits) as int;
        Some(if sign_len(t, signed) == 1 && t[0] == '-' { -v } else { v })
    }
}

/// What `str::parse::<u8>` yields.
pub open spec fn u8_text_value(t: Seq<char>) -> Option<u8> {
    match int_text_value(t, false) {
        Some(v) => if v <= 255 { Some(v as u8) } else { None },
        None => None,
    }
}

/// A digit run's value is at least that of any of its prefixes.
pub proof fn lemma_digits_value_prefix(d: Seq<char>, k: int)
    requires
        0 <= k <= d.len(),
        all_digits(d),
    ensures
        digits_value(d.take(k)) <= digits_value(d),
    decreases d.len(),
{
    if k < d.len() {
        assert(d.drop_last().take(k) =~= d.take(k));
        lemma_digits_value_prefix(d.drop_last(), k);
    } else {
        assert(d.take(k) =~= d);
    }
}

/// `str::parse::<u8>`: decimal text with an optional `+`, at most 255.
pub fn parse_u8(t: &str) -> (r: Option<u8>)
    ensures
        r == u8_text_value(t@),
{
    let v = chars_of(t);
    let n = v.len();
    let start: usize = if n > 0 && v[0] == '+' { 1 } else { 0 };
    let ghost digits = t@.subrange(start as int, n as int);
    assert(start == sign_len(t@, false));
    if start >= n {
        return None;
    }
    let mut i = start;
    let mut acc: u32 = 0;
    while i < n
        invariant
            v@ == t@,
            n == v@.len(),
            start <= i <= n,
            start <= 1,
            start == sign_len(t@, false),
            digits == t@.subrange(start as int, n as int),
            forall|j: int| start <= j < i ==> '0' <= #[trigger] t@[j] <= '9',
            acc == digits_value(t@.subrange(start as int, i as int)),
            acc <= 255,
        decreases n - i,
    {
        let c = v[i];
        if !('0' <= c && c <= '9') {
            proof {
                assert(digits[i - start] == c);
                assert(!all_digits(digits));
            }
            return None;
        }
        assert(t@.subrange(start as int, i + 1).drop_last() =~= t@.subrange(start as int, i as int));
        acc = acc * 10 + (c as u32 - '0' as u32);
        i = i + 1;
        if acc > 255 {
            proof {
                if all_digits(digits) {
                    assert(digits.take(i - start) =~= t@.subrange(start as int, i as int));
                    lemma_digits_value_prefix(digits, i - start);
                }
            }
            return None;
        }
    }
    assert(t@.subrange(start as int, i as int) =~= digits);
    assert(all_digits(digits));
    Some(acc as u8)
}


/// What `str::parse::<i64>` yields.
pub open spec fn i64_text_value(t: Seq<char>) -> Option<i64> {
    match int_text_value(t, true) {
        Some(v) => if i64::MIN <= v <= i64::MAX {
            Some(v as i64)
        } else {
            None
        },
        None => None,
    }
}

/// `str::parse::<i64>`: decimal text with an optional sign, within range.
pub fn parse_i64(t: &str) -> (r: Option<i64>)
    ensures
        r == i64_text_value(t@),
{
    let v = chars_of(t);
    let n = v.len();
    let start: usize = if n > 0 && (v[0] == '+' || v[0] == '-') { 1 } else { 0 };
    let neg = n > 0 && v[0] == '-';
    let ghost digits = t@.subrange(start as int, n as int);
    assert(start == sign_len(t@, true));
    if start >= n {
        return None;
    }
    let mut i = start;
    let mut acc: u64 = 0;
    while i < n
        invariant
            v@ == t@,
            n == v@.len(),
            start <= i <= n,
            start <= 1,
            start == sign_len(t@, true),
            digits == t@.subrange(start as int, n as int),
            forall|j: int| start <= j < i ==> '0' <= #[trigger] t@[j] <= '9',
            acc == digits_value(t@.subrange(start as int, i as int)),
            acc <= 9223372036854775808u64,
        decreases n - i,
    {
        let c = v[i];
        if !('0' <= c && c <= '9') {
            proof {
                assert(digits[i - start] == c);
                assert(!all_digits(digits));
            }
            return None;
        }
        assert(t@.subrange(start as int, i + 1).drop_last() =~= t@.subrange(start as int, i as int));
        let d: u64 = (c as u32 - '0' as u32) as u64;
        if acc > (9223372036854775808u64 - d) / 10 {
            proof {
                assert(acc * 10 + d > 9223372036854775808u64) by (nonlinear_arith)
                    requires
                        acc > (9223372036854775808u64 - d) / 10,
                        d <= 9,
                ;
                if all_digits(digits) {
                    assert(digits.take(i + 1 - start) =~= t@.subrange(start as int, i + 1));
                    lemma_digits_value_prefix(digits, i + 1 - start);
                }
            }
            return None;
        }
        acc = acc * 10 + d;
        i = i + 1;
    }
    assert(t@.subrange(start as int, i as int) =~= digits);
    assert(all_digits(digits));
    if neg {
        if acc == 9223372036854775808u64 {
            Some(i64::MIN)
        } else {
            Some(-(acc as i64))
        }
    } else if acc > 9223372036854775807u64 {
        None
    } else {
        Some(acc as i64)
    }
}

/// The views of a list of strings.
pub open spec fn string_views(v: Seq<String>) -> Seq<Seq<char>> {
    v.map_values(|s: String| s@)
}

/// Strings joined by a separator.
pub open spec fn joined(v: Seq<Seq<char>>, sep: Seq<char>) -> Seq<char>
    decreases v.len(),
{
    if v.len() == 0 {
        seq![]
    } else if v.len() == 1 {
        v[0]
    } else {
        joined(v.drop_last(), sep) + sep + v.last()
    }
}

/// Join strings with a separator.
pub fn join_strings(v: &Vec<String>, sep: &str) -> (r: String)
    ensures
        r@ == joined(string_views(v@), sep@),
{
    let mut out = string_of("");
    proof {
        reveal_strlit("");
    }
    let mut i: usize = 0;
    while i < v.len()
        invariant
            i <= v@.len(),
            out@ == joined(string_views(v@).take(i as int), sep@),
        decreases v@.len() - i,
    {
        assert(string_views(v@).take(i + 1).drop_last() =~= string_views(v@).take(i as int));
        if i > 0 {
            out.append(sep);
        }
        out.append(v[i].as_str());
        proof {
            if i == 0 {
                assert(out@ =~= joined(string_views(v@).take(1), sep@));
            } else {
                assert(out@ =~= joined(string_views(v@).take(i + 1), sep@));
            }
        }
        i = i + 1;
    }
    assert(string_views(v@).take(i as int) =~= string_views(v@));
    out
}

} // verus!
