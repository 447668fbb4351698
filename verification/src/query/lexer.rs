//! LQL lexer: turns a query string into tokens.

use vstd::prelude::*;
use crate::error::LatticeError;
use crate::text::{
    chars_eq_str, chars_of, digits_value, is_alphabetic, is_alphanumeric, is_digit_char, is_whitespace,
    push_char, string_from_chars, string_of, to_lowercase, unicode_alphabetic,
    unicode_alphanumeric, unicode_lowercase, unicode_whitespace,
};

verus! {

/// A token of LQL, generic over how text is held (`String` at run time,
/// `Seq<char>` in specifications).
#[derive(Debug, Clone, PartialEq)]
pub enum TokenOf<S> {
    /// `AND`
    And,
    /// `OR`
    Or,
    /// `NOT`
    Not,
    /// `SORT`
    Sort,
    /// `LIMIT`
    Limit,
    /// `ASC`
    Asc,
    /// `DESC`
    Desc,
    /// `tag`
    Tag,
    /// `type`
    Type,
    /// `state`
    State,
    /// `trust`
    Trust,
    /// `updated`
    Updated,
    /// `created`
    Created,
    /// `ref`
    Ref,
    /// `references`
    References,
    /// `closure`
    Closure,
    /// `draft`
    Draft,
    /// `review`
    Review,
    /// `approved`
    Approved,
    /// `discarded`
    Discarded,
    /// `sealed`
    Sealed,
    /// `archived`
    Archived,
    /// `untrusted`
    Untrusted,
    /// `quarantined`
    Quarantined,
    /// `trusted`
    Trusted,
    /// `within`
    Within,
    /// `before`
    Before,
    /// `after`
    After,
    /// `between`
    Between,
    /// `=`
    Eq,
    /// `!=`
    Ne,
    /// `>`
    Gt,
    /// `<`
    Lt,
    /// `>=`
    Ge,
    /// `<=`
    Le,
    /// `:`
    Colon,
    /// `(`
    LParen,
    /// `)`
    RParen,
    /// `/`
    Slash,
    /// `*`
    Star,
    /// A name that is not a keyword.
    Identifier(S),
    /// A run of decimal digits.
    Number(i64),
    /// A number with a unit suffix, in seconds.
    Duration(u64),
    /// A date or date-time literal.
    Timestamp(S),
    /// A double-quoted string literal, escapes resolved.
    String(S),
    /// End of input.
    Eof,
}

/// A token as produced by the lexer.
pub type Token = TokenOf<String>;

/// A token as described by the specifications.
pub type TokenV = TokenOf<Seq<char>>;

impl View for TokenOf<String> {
    type V = TokenOf<Seq<char>>;

    open spec fn view(&self) -> TokenOf<Seq<char>> {
        match self {
            TokenOf::And => TokenOf::And,
            TokenOf::Or => TokenOf::Or,
            TokenOf::Not => TokenOf::Not,
            TokenOf::Sort => TokenOf::Sort,
            TokenOf::Limit => TokenOf::Limit,
            TokenOf::Asc => TokenOf::Asc,
            TokenOf::Desc => TokenOf::Desc,
            TokenOf::Tag => TokenOf::Tag,
            TokenOf::Type => TokenOf::Type,
            TokenOf::State => TokenOf::State,
            TokenOf::Trust => TokenOf::Trust,
            TokenOf::Updated => TokenOf::Updated,
            TokenOf::Created => TokenOf::Created,
            TokenOf::Ref => TokenOf::Ref,
            TokenOf::References => TokenOf::References,
            TokenOf::Closure => TokenOf::Closure,
            TokenOf::Draft => TokenOf::Draft,
            TokenOf::Review => TokenOf::Review,
            TokenOf::Approved => TokenOf::Approved,
            TokenOf::Discarded => TokenOf::Discarded,
            TokenOf::Sealed => TokenOf::Sealed,
            TokenOf::Archived => TokenOf::Archived,
            TokenOf::Untrusted => TokenOf::Untrusted,
            TokenOf::Quarantined => TokenOf::Quarantined,
            TokenOf::Trusted => TokenOf::Trusted,
            TokenOf::Within => TokenOf::Within,
            TokenOf::Before => TokenOf::Before,
            TokenOf::After => TokenOf::After,
            TokenOf::Between => TokenOf::Between,
            TokenOf::Eq => TokenOf::Eq,
            TokenOf::Ne => TokenOf::Ne,
            TokenOf::Gt => TokenOf::Gt,
            TokenOf::Lt => TokenOf::Lt,
            TokenOf::Ge => TokenOf::Ge,
            TokenOf::Le => TokenOf::Le,
            TokenOf::Colon => TokenOf::Colon,
            TokenOf::LParen => TokenOf::LParen,
            TokenOf::RParen => TokenOf::RParen,
            TokenOf::Slash => TokenOf::Slash,
            TokenOf::Star => TokenOf::Star,
            TokenOf::Eof => TokenOf::Eof,
            TokenOf::Identifier(s) => TokenOf::Identifier(s@),
            TokenOf::Number(n) => TokenOf::Number(*n),
            TokenOf::Duration(d) => TokenOf::Duration(*d),
            TokenOf::Timestamp(s) => TokenOf::Timestamp(s@),
            TokenOf::String(s) => TokenOf::String(s@),
        }
    }
}

/// The keyword token named by an already lowercased word.
pub open spec fn keyword_token(w: Seq<char>) -> Option<TokenV> {
    if w == "and"@ {
        Some(TokenOf::And)
    } else if w == "or"@ {
        Some(TokenOf::Or)
    } else if w == "not"@ {
        Some(TokenOf::Not)
    } else if w == "sort"@ {
        Some(TokenOf::Sort)
    } else if w == "limit"@ {
        Some(TokenOf::Limit)
    } else if w == "asc"@ {
        Some(TokenOf::Asc)
    } else if w == "desc"@ {
        Some(TokenOf::Desc)
    } else if w == "tag"@ {
        Some(TokenOf::Tag)
    } else if w == "type"@ {
        Some(TokenOf::Type)
    } else if w == "state"@ {
        Some(TokenOf::State)
    } else if w == "trust"@ {
        Some(TokenOf::Trust)
    } else if w == "updated"@ {
        Some(TokenOf::Updated)
    } else if w == "created"@ {
        Some(TokenOf::Created)
    } else if w == "ref"@ {
        Some(TokenOf::Ref)
    } else if w == "references"@ {
        Some(TokenOf::References)
    } else if w == "closure"@ {
        Some(TokenOf::Closure)
    } else if w == "draft"@ {
        Some(TokenOf::Draft)
    } else if w == "review"@ {
        Some(TokenOf::Review)
    } else if w == "approved"@ {
        Some(TokenOf::Approved)
    } else if w == "discarded"@ {
        Some(TokenOf::Discarded)
    } else if w == "sealed"@ {
        Some(TokenOf::Sealed)
    } else if w == "archived"@ {
        Some(TokenOf::Archived)
    } else if w == "untrusted"@ {
        Some(TokenOf::Untrusted)
    } else if w == "quarantined"@ {
        Some(TokenOf::Quarantined)
    } else if w == "trusted"@ {
        Some(TokenOf::Trusted)
    } else if w == "within"@ {
        Some(TokenOf::Within)
    } else if w == "before"@ {
        Some(TokenOf::Before)
    } else if w == "after"@ {
        Some(TokenOf::After)
    } else if w == "between"@ {
        Some(TokenOf::Between)
    } else {
        None
    }
}

/// The duration units, in seconds: `s` one second, `m` sixty of them, `h`
/// sixty minutes, `d` twenty-four hours, `w` seven days and `y` 365 days;
/// no other character is a unit.
pub proof fn lemma_duration_units(c: char)
    ensures
        duration_unit('s') == Some(1u64),
        duration_unit('m') == Some((60 * duration_unit('s')->0) as u64),
        duration_unit('h') == Some((60 * duration_unit('m')->0) as u64),
        duration_unit('d') == Some((24 * duration_unit('h')->0) as u64),
        duration_unit('w') == Some((7 * duration_unit('d')->0) as u64),
        duration_unit('y') == Some((365 * duration_unit('d')->0) as u64),
        duration_unit(c) is Some <==> (c == 's' || c == 'm' || c == 'h' || c == 'd' || c == 'w' || c == 'y'),
{
}

/// Distinct keywords give distinct tokens.
pub proof fn lemma_keyword_injective(w1: Seq<char>, w2: Seq<char>)
    requires
        keyword_token(w1) is Some,
        keyword_token(w1) == keyword_token(w2),
    ensures
        w1 == w2,
{
}

/// A keyword gives the token that prints as the keyword (the logical
/// operators and the ordering words print in upper case).
pub proof fn lemma_keyword_prints_as_itself(w: Seq<char>)
    ensures
        keyword_token(w) matches Some(t) ==> (t is And || t is Or || t is Not || t is Sort || t is Limit || t is Asc
            || t is Desc || token_text(t) == w),
{
}

fn keyword_of(w: &[char]) -> (r: Option<Token>)
    ensures
        match keyword_token(w@) {
            Some(t) => r matches Some(x) && x@ == t,
            None => r is None,
        },
{
    if chars_eq_str(w, "and") {
        Some(TokenOf::And)
    } else if chars_eq_str(w, "or") {
        Some(TokenOf::Or)
    } else if chars_eq_str(w, "not") {
        Some(TokenOf::Not)
    } else if chars_eq_str(w, "sort") {
        Some(TokenOf::Sort)
    } else if chars_eq_str(w, "limit") {
        Some(TokenOf::Limit)
    } else if chars_eq_str(w, "asc") {
        Some(TokenOf::Asc)
    } else if chars_eq_str(w, "desc") {
        Some(TokenOf::Desc)
    } else if chars_eq_str(w, "tag") {
        Some(TokenOf::Tag)
    } else if chars_eq_str(w, "type") {
        Some(TokenOf::Type)
    } else if chars_eq_str(w, "state") {
        Some(TokenOf::State)
    } else if chars_eq_str(w, "trust") {
        Some(TokenOf::Trust)
    } else if chars_eq_str(w, "updated") {
        Some(TokenOf::Updated)
    } else if chars_eq_str(w, "created") {
        Some(TokenOf::Created)
    } else if chars_eq_str(w, "ref") {
        Some(TokenOf::Ref)
    } else if chars_eq_str(w, "references") {
        Some(TokenOf::References)
    } else if chars_eq_str(w, "closure") {
        Some(TokenOf::Closure)
    } else if chars_eq_str(w, "draft") {
        Some(TokenOf::Draft)
    } else if chars_eq_str(w, "review") {
        Some(TokenOf::Review)
    } else if chars_eq_str(w, "approved") {
        Some(TokenOf::Approved)
    } else if chars_eq_str(w, "discarded") {
        Some(TokenOf::Discarded)
    } else if chars_eq_str(w, "sealed") {
        Some(TokenOf::Sealed)
    } else if chars_eq_str(w, "archived") {
        Some(TokenOf::Archived)
    } else if chars_eq_str(w, "untrusted") {
        Some(TokenOf::Untrusted)
    } else if chars_eq_str(w, "quarantined") {
        Some(TokenOf::Quarantined)
    } else if chars_eq_str(w, "trusted") {
        Some(TokenOf::Trusted)
    } else if chars_eq_str(w, "within") {
        Some(TokenOf::Within)
    } else if chars_eq_str(w, "before") {
        Some(TokenOf::Before)
    } else if chars_eq_str(w, "after") {
        Some(TokenOf::After)
    } else if chars_eq_str(w, "between") {
        Some(TokenOf::Between)
    } else {
        None
    }
}

/// Where whitespace and `#` comments (up to the end of the line) starting at
/// `p` end.
pub open spec fn skip_trivia(s: Seq<char>, p: int, in_comment: bool) -> int
    decreases s.len() - p, if in_comment { 1int } else { 0int },
{
    if p < 0 || p >= s.len() {
        p
    } else if in_comment {
        if s[p] == '\n' {
            skip_trivia(s, p, false)
        } else {
            skip_trivia(s, p + 1, true)
        }
    } else if unicode_whitespace(s[p]) {
        skip_trivia(s, p + 1, false)
    } else if s[p] == '#' {
        skip_trivia(s, p + 1, true)
    } else {
        p
    }
}

pub open spec fn is_ident_char(c: char) -> bool {
    unicode_alphanumeric(c) || c == '_' || c == '-'
}

pub open spec fn is_timestamp_char(c: char) -> bool {
    is_digit_char(c) || c == '-' || c == 'T' || c == ':' || c == 'Z' || c == '+' || c == '.'
}

/// End of the run of identifier characters starting at `p`.
pub open spec fn ident_end(s: Seq<char>, p: int) -> int
    decreases s.len() - p,
{
    if p < 0 || p >= s.len() || !is_ident_char(s[p]) {
        p
    } else {
        ident_end(s, p + 1)
    }
}

/// End of the run of decimal digits starting at `p`.
pub open spec fn digits_end(s: Seq<char>, p: int) -> int
    decreases s.len() - p,
{
    if p < 0 || p >= s.len() || !is_digit_char(s[p]) {
        p
    } else {
        digits_end(s, p + 1)
    }
}

/// End of the run of timestamp characters starting at `p`.
pub open spec fn timestamp_end(s: Seq<char>, p: int) -> int
    decreases s.len() - p,
{
    if p < 0 || p >= s.len() || !is_timestamp_char(s[p]) {
        p
    } else {
        timestamp_end(s, p + 1)
    }
}

/// Ten to the power `n`.
pub open spec fn pow10(n: nat) -> nat
    decreases n,
{
    if n == 0 {
        1
    } else {
        10 * pow10((n - 1) as nat)
    }
}

/// The number a digit run denotes: its value, or 0 when it does not fit `i64`.
pub open spec fn number_value(d: Seq<char>) -> i64 {
    if digits_value(d) <= i64::MAX {
        digits_value(d) as i64
    } else {
        0
    }
}

pub open spec fn digit_char(d: nat) -> char {
    (48 + d) as char
}

/// Decimal representation of a natural number.
pub open spec fn decimal_chars(n: nat) -> Seq<char>
    decreases n,
{
    if n < 10 {
        seq![digit_char(n)]
    } else {
        decimal_chars(n / 10).push(digit_char(n % 10))
    }
}

/// Seconds per unit of a duration suffix.
pub open spec fn duration_unit(c: char) -> Option<u64> {
    if c == 's' {
        Some(1)
    } else if c == 'm' {
        Some(60)
    } else if c == 'h' {
        Some(3600)
    } else if c == 'd' {
        Some(86400)
    } else if c == 'w' {
        Some(604800)
    } else if c == 'y' {
        Some(31536000)
    } else {
        None
    }
}

/// The character an escape sequence `\c` stands for.
pub open spec fn unescape(c: char) -> char {
    if c == 'n' {
        '\n'
    } else if c == 't' {
        '\t'
    } else {
        c
    }
}

/// Lex the body of a string literal from `p` (just after the opening quote
/// at `start`) with `acc` already read: the text and the position after the
/// closing quote, or the error position and where the cursor stops.
pub open spec fn lex_string(s: Seq<char>, p: int, acc: Seq<char>, start: int) -> Result<(Seq<char>, int), (int, int)>
    decreases s.len() - p,
{
    if p < 0 || p >= s.len() {
        Err((start, p))
    } else if s[p] == '"' {
        Ok((acc, p + 1))
    } else if s[p] == '\\' {
        if p + 1 >= s.len() {
            Err((p + 1, p + 1))
        } else {
            lex_string(s, p + 2, acc.push(unescape(s[p + 1])), start)
        }
    } else {
        lex_string(s, p + 1, acc.push(s[p]), start)
    }
}

/// Lex a token that starts with a digit at `p`.
pub open spec fn lex_number(s: Seq<char>, p: int) -> (TokenV, int) {
    let q = digits_end(s, p);
    let n = number_value(s.subrange(p, q));
    if q < s.len() && (s[q] == '-' || s[q] == 'T' || s[q] == ':' || s[q] == 'Z' || s[q] == '+' || s[q] == '.') {
        let e = timestamp_end(s, q);
        (TokenOf::Timestamp(decimal_chars(n as nat) + s.subrange(q, e)), e)
    } else if q < s.len() && duration_unit(s[q]) is Some {
        (TokenOf::Duration((n as u64).wrapping_mul(duration_unit(s[q])->0)), q + 1)
    } else {
        (TokenOf::Number(n), q)
    }
}

/// The token at `p0` (after skipping whitespace and comments) and the
/// position after it; or the error position and where the cursor stops.
pub open spec fn lex_at(s: Seq<char>, p0: int) -> Result<(TokenV, int), (int, int)> {
    let p = skip_trivia(s, p0, false);
    if p < 0 || p >= s.len() {
        Ok((TokenOf::Eof, p))
    } else {
        let c = s[p];
        if c == ':' {
            Ok((TokenOf::Colon, p + 1))
        } else if c == '(' {
            Ok((TokenOf::LParen, p + 1))
        } else if c == ')' {
            Ok((TokenOf::RParen, p + 1))
        } else if c == '/' {
            Ok((TokenOf::Slash, p + 1))
        } else if c == '*' {
            Ok((TokenOf::Star, p + 1))
        } else if c == '=' {
            Ok((TokenOf::Eq, p + 1))
        } else if c == '!' {
            if p + 1 < s.len() && s[p + 1] == '=' {
                Ok((TokenOf::Ne, p + 2))
            } else {
                Err((p + 1, p + 1))
            }
        } else if c == '>' {
            if p + 1 < s.len() && s[p + 1] == '=' {
                Ok((TokenOf::Ge, p + 2))
            } else {
                Ok((TokenOf::Gt, p + 1))
            }
        } else if c == '<' {
            if p + 1 < s.len() && s[p + 1] == '=' {
                Ok((TokenOf::Le, p + 2))
            } else {
                Ok((TokenOf::Lt, p + 1))
            }
        } else if c == '"' {
            match lex_string(s, p + 1, seq![], p) {
                Ok((text, q)) => Ok((TokenOf::String(text), q)),
                Err(e) => Err(e),
            }
        } else if is_digit_char(c) {
            Ok(lex_number(s, p))
        } else if unicode_alphabetic(c) || c == '_' {
            let e = ident_end(s, p + 1);
            let word = s.subrange(p, e);
            match keyword_token(unicode_lowercase(word)) {
                Some(t) => Ok((t, e)),
                None => Ok((TokenOf::Identifier(word), e)),
            }
        } else {
            Err((p, p))
        }
    }
}

/// All tokens from `p` up to (not including) the end of input, with the
/// position of the end; or the first error.
pub open spec fn tokens_from(s: Seq<char>, p: int) -> Result<(Seq<TokenV>, int), (int, int)>
    decreases s.len() - p,
{
    if p < 0 || p > s.len() {
        Ok((seq![], p))
    } else {
        match lex_at(s, p) {
            Err(e) => Err(e),
            Ok((t, q)) => {
                if t is Eof || q <= p || q > s.len() {
                    Ok((seq![], q))
                } else {
                    match tokens_from(s, q) {
                        Ok((ts, e)) => Ok((seq![t] + ts, e)),
                        Err(e) => Err(e),
                    }
                }
            },
        }
    }
}

proof fn lemma_skip_trivia_bounds(s: Seq<char>, p: int, c: bool)
    requires
        0 <= p <= s.len(),
    ensures
        p <= skip_trivia(s, p, c) <= s.len(),
        skip_trivia(s, p, c) < s.len() ==> !unicode_whitespace(s[skip_trivia(s, p, c)])
            && s[skip_trivia(s, p, c)] != '#',
    decreases s.len() - p, if c { 1int } else { 0int },
{
    if p < s.len() {
        if c {
            if s[p] == '\n' {
                lemma_skip_trivia_bounds(s, p, false);
            } else {
                lemma_skip_trivia_bounds(s, p + 1, true);
            }
        } else if unicode_whitespace(s[p]) {
            lemma_skip_trivia_bounds(s, p + 1, false);
        } else if s[p] == '#' {
            lemma_skip_trivia_bounds(s, p + 1, true);
        }
    }
}

proof fn lemma_ident_end(s: Seq<char>, p: int)
    requires
        0 <= p <= s.len(),
    ensures
        p <= ident_end(s, p) <= s.len(),
    decreases s.len() - p,
{
    if p < s.len() && is_ident_char(s[p]) {
        lemma_ident_end(s, p + 1);
    }
}

proof fn lemma_digits_end(s: Seq<char>, p: int)
    requires
        0 <= p <= s.len(),
    ensures
        p <= digits_end(s, p) <= s.len(),
        forall|i: int| p <= i < digits_end(s, p) ==> is_digit_char(#[trigger] s[i]),
        digits_end(s, p) < s.len() ==> !is_digit_char(s[digits_end(s, p)]),
    decreases s.len() - p,
{
    if p < s.len() && is_digit_char(s[p]) {
        lemma_digits_end(s, p + 1);
    }
}

proof fn lemma_timestamp_end(s: Seq<char>, p: int)
    requires
        0 <= p <= s.len(),
    ensures
        p <= timestamp_end(s, p) <= s.len(),
    decreases s.len() - p,
{
    if p < s.len() && is_timestamp_char(s[p]) {
        lemma_timestamp_end(s, p + 1);
    }
}

proof fn lemma_lex_string_bounds(s: Seq<char>, p: int, acc: Seq<char>, start: int)
    requires
        0 <= start < p <= s.len(),
    ensures
        match lex_string(s, p, acc, start) {
            Ok((_, q)) => p < q <= s.len(),
            Err((_, q)) => q == s.len(),
        },
    decreases s.len() - p,
{
    if p < s.len() && s[p] != '"' {
        if s[p] == '\\' {
            if p + 1 < s.len() {
                lemma_lex_string_bounds(s, p + 2, acc.push(unescape(s[p + 1])), start);
            }
        } else {
            lemma_lex_string_bounds(s, p + 1, acc.push(s[p]), start);
        }
    }
}

/// Lexing never moves backwards or past the end, and every token but `Eof`
/// consumes at least one character.
pub proof fn lemma_lex_progress(s: Seq<char>, p: int)
    requires
        0 <= p <= s.len(),
    ensures
        match lex_at(s, p) {
            Ok((t, q)) => p <= q <= s.len() && (t !is Eof ==> p < q) && (t is Eof ==> q == s.len()),
            Err((_, q)) => p <= q <= s.len(),
        },
{
    lemma_skip_trivia_bounds(s, p, false);
    let p1 = skip_trivia(s, p, false);
    if p1 < s.len() {
        lemma_ident_end(s, p1 + 1);
        lemma_digits_end(s, p1);
        let q = digits_end(s, p1);
        if q < s.len() {
            lemma_timestamp_end(s, q);
        }
        if s[p1] == '"' {
            lemma_lex_string_bounds(s, p1 + 1, seq![], p1);
        }
    }
}

/// Reading all tokens to the end succeeds only at the end of the input:
/// trailing whitespace and comments are consumed too.
pub proof fn lemma_tokens_reach_end(s: Seq<char>, p: int)
    requires
        0 <= p <= s.len(),
    ensures
        tokens_from(s, p) matches Ok((_, e)) ==> e == s.len(),
    decreases s.len() - p,
{
    lemma_lex_progress(s, p);
    match lex_at(s, p) {
        Err(_) => {},
        Ok((t, q)) => {
            if !(t is Eof || q <= p || q > s.len()) {
                lemma_tokens_reach_end(s, q);
            }
        },
    }
}

/// An LQL lexer over a query string.
pub struct Lexer {
    chars: Vec<char>,
    pos: usize,
}

impl Lexer {
    /// The characters of the input.
    pub closed spec fn input(&self) -> Seq<char> {
        self.chars@
    }

    /// The current position (in characters).
    pub closed spec fn cursor(&self) -> int {
        self.pos as int
    }

    /// The cursor lies within the input.
    pub closed spec fn wf(&self) -> bool {
        self.pos <= self.chars@.len()
    }

    /// A lexer at the start of `input`.
    pub fn new(input: &str) -> (r: Lexer)
        ensures
            r.wf(),
            r.input() == input@,
            r.cursor() == 0,
    {
        Lexer { chars: chars_of(input), pos: 0 }
    }

    /// The current position in the input (in characters).
    pub fn position(&self) -> (r: usize)
        ensures
            r == self.cursor(),
    {
        self.pos
    }

    fn peek(&self) -> (r: Option<char>)
        requires
            self.wf(),
        ensures
            self.pos < self.chars@.len() ==> r == Some(self.chars@[self.pos as int]),
            self.pos >= self.chars@.len() ==> r is None,
    {
        if self.pos < self.chars.len() {
            Some(self.chars[self.pos])
        } else {
            None
        }
    }

    fn skip_whitespace(&mut self)
        requires
            old(self).wf(),
        ensures
            final(self).wf(),
            final(self).chars@ == old(self).chars@,
            final(self).pos == skip_trivia(old(self).chars@, old(self).pos as int, false),
    {
        let ghost s = self.chars@;
        let ghost target = skip_trivia(s, self.pos as int, false);
        proof {
            lemma_skip_trivia_bounds(s, self.pos as int, false);
        }
        let n = self.chars.len();
        while self.pos < n
            invariant_except_break
                self.chars@ == s,
                n == s.len(),
                self.pos <= n,
                skip_trivia(s, self.pos as int, false) == target,
            ensures
                self.chars@ == s,
                self.pos == target,
                self.pos <= n,
            decreases n - self.pos,
        {
            let c = self.chars[self.pos];
            if is_whitespace(c) {
                self.pos = self.pos + 1;
            } else if c == '#' {
                self.pos = self.pos + 1;
                let mark = self.pos;
                while self.pos < n && self.chars[self.pos] != '\n'
                    invariant
                        mark <= self.pos,
                        self.chars@ == s,
                        n == s.len(),
                        self.pos <= n,
                        skip_trivia(s, self.pos as int, true) == target,
                    decreases n - self.pos,
                {
                    self.pos = self.pos + 1;
                }
            } else {
                break;
            }
        }
    }

    fn scan_ident(&mut self)
        requires
            old(self).wf(),
        ensures
            final(self).wf(),
            final(self).chars@ == old(self).chars@,
            final(self).pos == ident_end(old(self).chars@, old(self).pos as int),
    {
        let ghost s = self.chars@;
        let ghost target = ident_end(s, self.pos as int);
        proof {
            lemma_ident_end(s, self.pos as int);
        }
        let n = self.chars.len();
        while self.pos < n
            invariant_except_break
                self.chars@ == s,
                n == s.len(),
                self.pos <= n,
                ident_end(s, self.pos as int) == target,
            ensures
                self.chars@ == s,
                self.pos == target,
                self.pos <= n,
            decreases n - self.pos,
        {
            let c = self.chars[self.pos];
            if is_alphanumeric(c) || c == '_' || c == '-' {
                self.pos = self.pos + 1;
            } else {
                break;
            }
        }
    }

    fn scan_timestamp(&mut self)
        requires
            old(self).wf(),
        ensures
            final(self).wf(),
            final(self).chars@ == old(self).chars@,
            final(self).pos == timestamp_end(old(self).chars@, old(self).pos as int),
    {
        let ghost s = self.chars@;
        let ghost target = timestamp_end(s, self.pos as int);
        proof {
            lemma_timestamp_end(s, self.pos as int);
        }
        let n = self.chars.len();
        while self.pos < n
            invariant_except_break
                self.chars@ == s,
                n == s.len(),
                self.pos <= n,
                timestamp_end(s, self.pos as int) == target,
            ensures
                self.chars@ == s,
                self.pos == target,
                self.pos <= n,
            decreases n - self.pos,
        {
            let c = self.chars[self.pos];
            if ('0' <= c && c <= '9') || c == '-' || c == 'T' || c == ':' || c == 'Z' || c == '+' || c == '.' {
                self.pos = self.pos + 1;
            } else {
                break;
            }
        }
    }

    /// Read a run of digits; its value, or 0 if it does not fit `i64`.
    fn read_number(&mut self) -> (r: i64)
        requires
            old(self).wf(),
        ensures
            final(self).wf(),
            final(self).chars@ == old(self).chars@,
            final(self).pos == digits_end(old(self).chars@, old(self).pos as int),
            r == number_value(old(self).chars@.subrange(old(self).pos as int, final(self).pos as int)),
    {
        let ghost s = self.chars@;
        let start = self.pos;
        proof {
            lemma_digits_end(s, start as int);
        }
        let ghost target = digits_end(s, start as int);
        let n = self.chars.len();
        let mut value: i64 = 0;
        let mut overflow = false;
        while self.pos < n
            invariant_except_break
                self.chars@ == s,
                n == s.len(),
                start <= self.pos <= target <= n,
                forall|i: int| start <= i < target ==> is_digit_char(#[trigger] s[i]),
                target < n ==> !is_digit_char(s[target]),
                !overflow ==> value == digits_value(s.subrange(start as int, self.pos as int)),
                overflow ==> digits_value(s.subrange(start as int, self.pos as int)) > i64::MAX,
            ensures
                self.chars@ == s,
                self.pos == target,
                !overflow ==> value == digits_value(s.subrange(start as int, self.pos as int)),
                overflow ==> digits_value(s.subrange(start as int, self.pos as int)) > i64::MAX,
            decreases n - self.pos,
        {
            let c = self.chars[self.pos];
            if '0' <= c && c <= '9' {
                let ghost before = s.subrange(start as int, self.pos as int);
                let d = (c as u32 - '0' as u32) as i64;
                assert(s.subrange(start as int, self.pos + 1).drop_last() =~= before);
                if !overflow {
                    match value.checked_mul(10) {
                        Some(v10) => {
                            match v10.checked_add(d) {
                                Some(v) => {
                                    value = v;
                                }
                                None => {
                                    overflow = true;
                                }
                            }
                        }
                        None => {
                            overflow = true;
                        }
                    }
                }
                self.pos = self.pos + 1;
            } else {
                break;
            }
        }
        if overflow {
            0
        } else {
            value
        }
    }

    /// Read a string literal whose opening quote is at the cursor.
    fn read_string(&mut self) -> (r: Result<String, LatticeError>)
        requires
            old(self).wf(),
            old(self).pos < old(self).chars@.len(),
        ensures
            final(self).wf(),
            final(self).chars@ == old(self).chars@,
            match lex_string(old(self).chars@, old(self).pos + 1, seq![], old(self).pos as int) {
                Ok((text, q)) => r matches Ok(x) && x@ == text && final(self).pos == q,
                Err((e, q)) => r matches Err(LatticeError::ParseError { position, .. })
                    && position == e && final(self).pos == q,
            },
    {
        let ghost s = self.chars@;
        let start = self.pos;
        let ghost target = lex_string(s, start + 1, seq![], start as int);
        let n = self.chars.len();
        self.pos = self.pos + 1;
        let mut result = String::new();
        assert(result@ =~= seq![]);
        let mut failure: Option<usize> = None;
        loop
            invariant_except_break
                self.chars@ == s,
                n == s.len(),
                start < self.pos <= n,
                failure is None,
                lex_string(s, self.pos as int, result@, start as int) == target,
            ensures
                self.chars@ == s,
                self.pos <= n,
                match target {
                    Ok((text, q)) => failure is None && result@ == text && self.pos == q,
                    Err((e, q)) => failure matches Some(f) && f == e && self.pos == q,
                },
            decreases n - self.pos,
        {
            if self.pos >= n {
                failure = Some(start);
                break;
            }
            let c = self.chars[self.pos];
            if c == '"' {
                self.pos = self.pos + 1;
                break;
            } else if c == '\\' {
                self.pos = self.pos + 1;
                if self.pos >= n {
                    failure = Some(self.pos);
                    break;
                }
                let e = self.chars[self.pos];
                self.pos = self.pos + 1;
                if e == 'n' {
                    push_char(&mut result, '\n');
                } else if e == 't' {
                    push_char(&mut result, '\t');
                } else {
                    push_char(&mut result, e);
                }
            } else {
                push_char(&mut result, c);
                self.pos = self.pos + 1;
            }
        }
        match failure {
            Some(position) => Err(LatticeError::ParseError {
                position,
                message: if position == start {
                    string_of("Unterminated string literal")
                } else {
                    string_of("Unterminated escape sequence")
                },
            }),
            None => Ok(result),
        }
    }

    /// The next token; the cursor moves past it.
    pub fn next_token(&mut self) -> (r: Result<Token, LatticeError>)
        requires
            old(self).wf(),
        ensures
            final(self).wf(),
            final(self).input() == old(self).input(),
            match lex_at(old(self).input(), old(self).cursor()) {
                Ok((t, q)) => r matches Ok(x) && x@ == t && final(self).cursor() == q,
                Err((e, q)) => r matches Err(LatticeError::ParseError { position, .. })
                    && position == e && final(self).cursor() == q,
            },
    {
        let ghost s = self.chars@;
        proof {
            lemma_skip_trivia_bounds(s, self.pos as int, false);
        }
        self.skip_whitespace();
        let n = self.chars.len();
        if self.pos >= n {
            return Ok(TokenOf::Eof);
        }
        let p = self.pos;
        let c = self.chars[p];
        if c == ':' {
            self.pos = p + 1;
            Ok(TokenOf::Colon)
        } else if c == '(' {
            self.pos = p + 1;
            Ok(TokenOf::LParen)
        } else if c == ')' {
            self.pos = p + 1;
            Ok(TokenOf::RParen)
        } else if c == '/' {
            self.pos = p + 1;
            Ok(TokenOf::Slash)
        } else if c == '*' {
            self.pos = p + 1;
            Ok(TokenOf::Star)
        } else if c == '=' {
            self.pos = p + 1;
            Ok(TokenOf::Eq)
        } else if c == '!' {
            self.pos = p + 1;
            if p + 1 < n && self.chars[p + 1] == '=' {
                self.pos = p + 2;
                Ok(TokenOf::Ne)
            } else {
                Err(LatticeError::ParseError {
                    position: self.pos,
                    message: string_of("Expected '=' after '!'"),
                })
            }
        } else if c == '>' {
            self.pos = p + 1;
            if p + 1 < n && self.chars[p + 1] == '=' {
                self.pos = p + 2;
                Ok(TokenOf::Ge)
            } else {
                Ok(TokenOf::Gt)
            }
        } else if c == '<' {
            self.pos = p + 1;
            if p + 1 < n && self.chars[p + 1] == '=' {
                self.pos = p + 2;
                Ok(TokenOf::Le)
            } else {
                Ok(TokenOf::Lt)
            }
        } else if c == '"' {
            match self.read_string() {
                Ok(text) => Ok(TokenOf::String(text)),
                Err(e) => Err(e),
            }
        } else if '0' <= c && c <= '9' {
            self.lex_number_token()
        } else if is_alphabetic(c) || c == '_' {
            self.pos = p + 1;
            self.scan_ident();
            let e = self.pos;
            proof {
                lemma_ident_end(s, p + 1);
            }
            let word = string_from_chars(&self.chars, p, e);
            let lower = to_lowercase(word.as_str());
            let lower_chars = chars_of(lower.as_str());
            match keyword_of(lower_chars.as_slice()) {
                Some(t) => Ok(t),
                None => Ok(TokenOf::Identifier(word)),
            }
        } else {
            let mut message = string_of("Unexpected character: '");
            push_char(&mut message, c);
            push_char(&mut message, '\'');
            Err(LatticeError::ParseError { position: p, message })
        }
    }

    fn lex_number_token(&mut self) -> (r: Result<Token, LatticeError>)
        requires
            old(self).wf(),
            old(self).pos < old(self).chars@.len(),
        ensures
            final(self).wf(),
            final(self).chars@ == old(self).chars@,
            r matches Ok(x) && (x@, final(self).pos as int) == lex_number(old(self).chars@, old(self).pos as int),
    {
        let ghost s = self.chars@;
        let p = self.pos;
        let num = self.read_number();
        let q = self.pos;
        proof {
            lemma_digits_end(s, p as int);
        }
        let n = self.chars.len();
        if q < n {
            let c = self.chars[q];
            if c == '-' || c == 'T' || c == ':' || c == 'Z' || c == '+' || c == '.' {
                let mut text = String::new();
                push_decimal(&mut text, num as u64);
                assert(text@ =~= decimal_chars(num as nat));
                self.scan_timestamp();
                let e = self.pos;
                proof {
                    lemma_timestamp_end(s, q as int);
                }
                let mut i = q;
                while i < e
                    invariant
                        self.chars@ == s,
                        q <= i <= e <= s.len(),
                        text@ == decimal_chars(num as nat) + s.subrange(q as int, i as int),
                    decreases e - i,
                {
                    push_char(&mut text, self.chars[i]);
                    i = i + 1;
                    assert(text@ =~= decimal_chars(num as nat) + s.subrange(q as int, i as int));
                }
                return Ok(TokenOf::Timestamp(text));
            }
            let unit: u64 = if c == 's' {
                1
            } else if c == 'm' {
                60
            } else if c == 'h' {
                3600
            } else if c == 'd' {
                86400
            } else if c == 'w' {
                604800
            } else if c == 'y' {
                31536000
            } else {
                0
            };
            if unit != 0 {
                self.pos = q + 1;
                return Ok(TokenOf::Duration((num as u64).wrapping_mul(unit)));
            }
        }
        Ok(TokenOf::Number(num))
    }

    /// The next token (or the error lexing it gives), leaving the cursor
    /// where it was.
    pub fn peek_token(&mut self) -> (r: Result<Token, LatticeError>)
        requires
            old(self).wf(),
        ensures
            final(self).wf(),
            final(self).input() == old(self).input(),
            match lex_at(old(self).input(), old(self).cursor()) {
                Ok((t, q)) => r matches Ok(x) && x@ == t && final(self).cursor() == old(self).cursor(),
                Err((e, q)) => r matches Err(LatticeError::ParseError { position, .. })
                    && position == e && final(self).cursor() == old(self).cursor(),
            },
    {
        let saved = self.pos;
        let t = self.next_token();
        self.pos = saved;
        t
    }

    /// All remaining tokens, without the final `Eof`.
    pub fn tokenize(&mut self) -> (r: Result<Vec<Token>, LatticeError>)
        requires
            old(self).wf(),
        ensures
            final(self).wf(),
            final(self).input() == old(self).input(),
            r is Ok ==> final(self).cursor() == old(self).input().len(),
            match tokens_from(old(self).input(), old(self).cursor()) {
                Ok((ts, q)) => r matches Ok(v) && v@.map_values(|t: Token| t@) == ts
                    && final(self).cursor() == q,
                Err((e, q)) => r matches Err(LatticeError::ParseError { position, .. })
                    && position == e && final(self).cursor() == q,
            },
    {
        let ghost s = self.chars@;
        proof {
            lemma_tokens_reach_end(self.chars@, self.pos as int);
        }
        let ghost p0 = self.pos as int;
        let mut tokens: Vec<Token> = Vec::new();
        let mut failure: Option<LatticeError> = None;
        loop
            invariant_except_break
                self.wf(),
                self.chars@ == s,
                p0 <= self.pos,
                failure is None,
                match tokens_from(s, p0) {
                    Ok((ts, q)) => tokens_from(s, self.pos as int) matches Ok((rest, q2))
                        && q2 == q && ts == tokens@.map_values(|t: Token| t@) + rest,
                    Err(e) => tokens_from(s, self.pos as int) == Err::<(Seq<TokenV>, int), (int, int)>(e),
                },
            ensures
                self.wf(),
                self.chars@ == s,
                match tokens_from(s, p0) {
                    Ok((ts, q)) => failure is None && tokens@.map_values(|t: Token| t@) == ts
                        && self.pos == q,
                    Err((e, q)) => failure matches Some(LatticeError::ParseError { position, .. })
                        && position == e && self.pos == q,
                },
            decreases s.len() - self.pos,
        {
            let ghost before = self.pos as int;
            proof {
                lemma_lex_progress(s, before);
            }
            let t = self.next_token();
            match t {
                Err(e) => {
                    failure = Some(e);
                    break;
                }
                Ok(tok) => {
                    if let TokenOf::Eof = tok {
                        proof {
                            assert(tokens@.map_values(|t: Token| t@) + seq![] =~= tokens@.map_values(|t: Token| t@));
                        }
                        break;
                    }
                    let ghost tv = tok@;
                    let ghost old_tokens = tokens@.map_values(|t: Token| t@);
                    tokens.push(tok);
                    proof {
                        assert(tokens@.map_values(|t: Token| t@) =~= old_tokens.push(tv));
                        match tokens_from(s, self.pos as int) {
                            Ok((rest, q)) => {
                                assert(old_tokens + (seq![tv] + rest) =~= old_tokens.push(tv) + rest);
                            }
                            Err(_) => {}
                        }
                    }
                }
            }
        }
        match failure {
            Some(e) => Err(e),
            None => Ok(tokens),
        }
    }
}

/// Append the decimal digits of `n`.
pub(crate) fn push_decimal(out: &mut String, n: u64)
    ensures
        final(out)@ == old(out)@ + decimal_chars(n as nat),
    decreases n,
{
    if n >= 10 {
        push_decimal(out, n / 10);
    }
    let d = (n % 10) as u8;
    push_char(out, (48u8 + d) as char);
    proof {
        if n >= 10 {
            assert(decimal_chars(n as nat) == decimal_chars((n / 10) as nat).push(digit_char((n % 10) as nat)));
        }
    }
}


/// Decimal text of an integer, with a leading `-` when it is negative.
pub open spec fn int_text(n: int) -> Seq<char> {
    if n < 0 { seq!['-'] + decimal_chars((-n) as nat) } else { decimal_chars(n as nat) }
}

/// Append the decimal text of a signed integer.
pub(crate) fn push_int(out: &mut String, n: i64)
    ensures
        final(out)@ == old(out)@ + int_text(n as int),
{
    if n < 0 {
        push_char(out, '-');
        let m: u64 = if n == i64::MIN { 9223372036854775808u64 } else { (-n) as u64 };
        push_decimal(out, m);
    } else {
        push_decimal(out, n as u64);
    }
}

/// How a token is printed.
pub open spec fn token_text(t: TokenV) -> Seq<char> {
    match t {
        TokenOf::And => "AND"@,
        TokenOf::Or => "OR"@,
        TokenOf::Not => "NOT"@,
        TokenOf::Sort => "SORT"@,
        TokenOf::Limit => "LIMIT"@,
        TokenOf::Asc => "ASC"@,
        TokenOf::Desc => "DESC"@,
        TokenOf::Tag => "tag"@,
        TokenOf::Type => "type"@,
        TokenOf::State => "state"@,
        TokenOf::Trust => "trust"@,
        TokenOf::Updated => "updated"@,
        TokenOf::Created => "created"@,
        TokenOf::Ref => "ref"@,
        TokenOf::References => "references"@,
        TokenOf::Closure => "closure"@,
        TokenOf::Draft => "draft"@,
        TokenOf::Review => "review"@,
        TokenOf::Approved => "approved"@,
        TokenOf::Discarded => "discarded"@,
        TokenOf::Sealed => "sealed"@,
        TokenOf::Archived => "archived"@,
        TokenOf::Untrusted => "untrusted"@,
        TokenOf::Quarantined => "quarantined"@,
        TokenOf::Trusted => "trusted"@,
        TokenOf::Within => "within"@,
        TokenOf::Before => "before"@,
        TokenOf::After => "after"@,
        TokenOf::Between => "between"@,
        TokenOf::Eq => "="@,
        TokenOf::Ne => "!="@,
        TokenOf::Gt => ">"@,
        TokenOf::Lt => "<"@,
        TokenOf::Ge => ">="@,
        TokenOf::Le => "<="@,
        TokenOf::Colon => ":"@,
        TokenOf::LParen => "("@,
        TokenOf::RParen => ")"@,
        TokenOf::Slash => "/"@,
        TokenOf::Star => "*"@,
        TokenOf::Identifier(s) => s,
        TokenOf::Number(n) => int_text(n as int),
        TokenOf::Duration(d) => decimal_chars(d as nat) + "s"@,
        TokenOf::Timestamp(s) => s,
        TokenOf::String(s) => seq!['"'] + s + seq!['"'],
        TokenOf::Eof => "EOF"@,
    }
}

impl TokenOf<String> {
    /// The printed form of the token (what `Display` shows).
    pub fn to_string(&self) -> (r: String)
        ensures
            r@ == token_text(self@),
    {
        match self {
            TokenOf::And => string_of("AND"),
            TokenOf::Or => string_of("OR"),
            TokenOf::Not => string_of("NOT"),
            TokenOf::Sort => string_of("SORT"),
            TokenOf::Limit => string_of("LIMIT"),
            TokenOf::Asc => string_of("ASC"),
            TokenOf::Desc => string_of("DESC"),
            TokenOf::Tag => string_of("tag"),
            TokenOf::Type => string_of("type"),
            TokenOf::State => string_of("state"),
            TokenOf::Trust => string_of("trust"),
            TokenOf::Updated => string_of("updated"),
            TokenOf::Created => string_of("created"),
            TokenOf::Ref => string_of("ref"),
            TokenOf::References => string_of("references"),
            TokenOf::Closure => string_of("closure"),
            TokenOf::Draft => string_of("draft"),
            TokenOf::Review => string_of("review"),
            TokenOf::Approved => string_of("approved"),
            TokenOf::Discarded => string_of("discarded"),
            TokenOf::Sealed => string_of("sealed"),
            TokenOf::Archived => string_of("archived"),
            TokenOf::Untrusted => string_of("untrusted"),
            TokenOf::Quarantined => string_of("quarantined"),
            TokenOf::Trusted => string_of("trusted"),
            TokenOf::Within => string_of("within"),
            TokenOf::Before => string_of("before"),
            TokenOf::After => string_of("after"),
            TokenOf::Between => string_of("between"),
            TokenOf::Eq => string_of("="),
            TokenOf::Ne => string_of("!="),
            TokenOf::Gt => string_of(">"),
            TokenOf::Lt => string_of("<"),
            TokenOf::Ge => string_of(">="),
            TokenOf::Le => string_of("<="),
            TokenOf::Colon => string_of(":"),
            TokenOf::LParen => string_of("("),
            TokenOf::RParen => string_of(")"),
            TokenOf::Slash => string_of("/"),
            TokenOf::Star => string_of("*"),
            TokenOf::Identifier(s) => s.clone(),
            TokenOf::Number(n) => {
                let mut out = String::new();
                push_int(&mut out, *n);
                out
            },
            TokenOf::Duration(d) => {
                let mut out = String::new();
                push_decimal(&mut out, *d);
                out.append("s");
                out
            },
            TokenOf::Timestamp(s) => s.clone(),
            TokenOf::String(s) => {
                let mut out = String::new();
                push_char(&mut out, '"');
                out.append(s.as_str());
                push_char(&mut out, '"');
                out
            },
            TokenOf::Eof => string_of("EOF"),
        }
    }
}

} // verus!
