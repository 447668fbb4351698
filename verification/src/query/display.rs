//! How the parts of a query are printed.

use vstd::prelude::*;
use crate::model::object::uuid_text;
use crate::query::ast::{
    CompareOp, MimePattern, MimeV, ObjectRef, ObjectRefV, SortDirection, SortField, TimeField, TimeOp, TimeValue,
    TrustLevel,
};
use crate::query::lexer::{decimal_chars, int_text, push_decimal, push_int};
use crate::text::{join_strings, joined, push_char, string_of, string_views};

verus! {

/// `=`, `!=`, `>`, `<`, `>=` or `<=`.
pub open spec fn compare_op_text(op: CompareOp) -> Seq<char> {
    match op {
        CompareOp::Eq => "="@,
        CompareOp::Ne => "!="@,
        CompareOp::Gt => ">"@,
        CompareOp::Lt => "<"@,
        CompareOp::Ge => ">="@,
        CompareOp::Le => "<="@,
    }
}

/// The name of a trust level, or the number of a numeric one.
pub open spec fn trust_level_text(l: TrustLevel) -> Seq<char> {
    match l {
        TrustLevel::Untrusted => "untrusted"@,
        TrustLevel::Quarantined => "quarantined"@,
        TrustLevel::Trusted => "trusted"@,
        TrustLevel::Approved => "approved"@,
        TrustLevel::Numeric(v) => decimal_chars(v as nat),
    }
}

/// `updated` or `created`.
pub open spec fn time_field_text(f: TimeField) -> Seq<char> {
    match f {
        TimeField::Updated => "updated"@,
        TimeField::Created => "created"@,
    }
}

/// `within`, `before`, `after` or `between`.
pub open spec fn time_op_text(op: TimeOp) -> Seq<char> {
    match op {
        TimeOp::Within => "within"@,
        TimeOp::Before => "before"@,
        TimeOp::After => "after"@,
        TimeOp::Between => "between"@,
    }
}

/// `updated`, `created`, `size` or `trust`.
pub open spec fn sort_field_text(f: SortField) -> Seq<char> {
    match f {
        SortField::Updated => "updated"@,
        SortField::Created => "created"@,
        SortField::Size => "size"@,
        SortField::Trust => "trust"@,
    }
}

/// `ASC` or `DESC`.
pub open spec fn sort_direction_text(d: SortDirection) -> Seq<char> {
    match d {
        SortDirection::Asc => "ASC"@,
        SortDirection::Desc => "DESC"@,
    }
}

/// `major/minor`, with `*` for a missing minor part.
pub open spec fn mime_text(m: MimeV) -> Seq<char> {
    m.major + "/"@ + match m.minor {
        Some(minor) => minor,
        None => "*"@,
    }
}

/// An object reference as written: the UUID, the hash, `tag:` and the path,
/// or the alias in double quotes.
pub open spec fn object_ref_text(r: ObjectRefV) -> Seq<char> {
    match r {
        ObjectRefV::Id(id) => uuid_text(id.0),
        ObjectRefV::Hash(h) => h,
        ObjectRefV::Tag(path) => "tag:"@ + joined(path, ":"@),
        ObjectRefV::Alias(a) => "\""@ + a + "\""@,
    }
}

/// The debugging text of a time value: `Duration(<n>s)`, `Timestamp(<t>)`
/// or `Range { start: <s>, end: <e> }`.
pub open spec fn time_value_debug(v: TimeValue) -> Seq<char> {
    match v {
        TimeValue::Duration(secs) => "Duration("@ + decimal_chars(secs as nat) + "s)"@,
        TimeValue::Timestamp(t) => "Timestamp("@ + int_text(t as int) + ")"@,
        TimeValue::Range { start, end } => "Range { start: "@ + int_text(start as int) + ", end: "@
            + int_text(end as int) + " }"@,
    }
}

impl CompareOp {
    /// The operator as written.
    pub fn to_string(&self) -> (r: String)
        ensures
            r@ == compare_op_text(*self),
    {
        match self {
            CompareOp::Eq => string_of("="),
            CompareOp::Ne => string_of("!="),
            CompareOp::Gt => string_of(">"),
            CompareOp::Lt => string_of("<"),
            CompareOp::Ge => string_of(">="),
            CompareOp::Le => string_of("<="),
        }
    }
}

impl TrustLevel {
    /// The name of the level, or its number.
    pub fn to_string(&self) -> (r: String)
        ensures
            r@ == trust_level_text(*self),
    {
        match self {
            TrustLevel::Untrusted => string_of("untrusted"),
            TrustLevel::Quarantined => string_of("quarantined"),
            TrustLevel::Trusted => string_of("trusted"),
            TrustLevel::Approved => string_of("approved"),
            TrustLevel::Numeric(v) => {
                let mut out = String::new();
                push_decimal(&mut out, *v as u64);
                out
            },
        }
    }
}

impl TimeField {
    /// `updated` or `created`.
    pub fn to_string(&self) -> (r: String)
        ensures
            r@ == time_field_text(*self),
    {
        match self {
            TimeField::Updated => string_of("updated"),
            TimeField::Created => string_of("created"),
        }
    }
}

impl TimeOp {
    /// The operator's keyword.
    pub fn to_string(&self) -> (r: String)
        ensures
            r@ == time_op_text(*self),
    {
        match self {
            TimeOp::Within => string_of("within"),
            TimeOp::Before => string_of("before"),
            TimeOp::After => string_of("after"),
            TimeOp::Between => string_of("between"),
        }
    }
}

impl SortField {
    /// The field's keyword.
    pub fn to_string(&self) -> (r: String)
        ensures
            r@ == sort_field_text(*self),
    {
        match self {
            SortField::Updated => string_of("updated"),
            SortField::Created => string_of("created"),
            SortField::Size => string_of("size"),
            SortField::Trust => string_of("trust"),
        }
    }
}

impl SortDirection {
    /// `ASC` or `DESC`.
    pub fn to_string(&self) -> (r: String)
        ensures
            r@ == sort_direction_text(*self),
    {
        match self {
            SortDirection::Asc => string_of("ASC"),
            SortDirection::Desc => string_of("DESC"),
        }
    }
}

impl MimePattern {
    /// `major/minor`, or `major/*` for a wildcard.
    pub fn to_string(&self) -> (r: String)
        ensures
            r@ == mime_text(self@),
    {
        let mut out = string_of(self.major.as_str());
        push_char(&mut out, '/');
        match &self.minor {
            Some(m) => out.append(m.as_str()),
            None => push_char(&mut out, '*'),
        }
        proof {
            reveal_strlit("/");
            reveal_strlit("*");
        }
        assert(out@ =~= mime_text(self@));
        out
    }
}

impl ObjectRef {
    /// The reference as written.
    pub fn to_string(&self) -> (r: String)
        ensures
            r@ == object_ref_text(self@),
    {
        match self {
            ObjectRef::Id(id) => {
                id.to_string()
            },
            ObjectRef::Hash(h) => string_of(h.as_str()),
            ObjectRef::Tag(path) => {
                let mut out = string_of("tag:");
                let joined_path = join_strings(path, ":");
                out.append(joined_path.as_str());
                out
            },
            ObjectRef::Alias(a) => {
                let mut out = String::new();
                push_char(&mut out, '"');
                out.append(a.as_str());
                push_char(&mut out, '"');
                proof {
                    reveal_strlit("\"");
                }
                assert(out@ =~= object_ref_text(self@));
                out
            },
        }
    }
}

impl TimeValue {
    /// The debugging text of the value.
    pub fn debug_text(&self) -> (r: String)
        ensures
            r@ == time_value_debug(*self),
    {
        match self {
            TimeValue::Duration(secs) => {
                let mut out = string_of("Duration(");
                push_decimal(&mut out, *secs);
                out.append("s)");
                out
            },
            TimeValue::Timestamp(t) => {
                let mut out = string_of("Timestamp(");
                push_int(&mut out, *t);
                out.append(")");
                out
            },
            TimeValue::Range { start, end } => {
                let mut out = string_of("Range { start: ");
                push_int(&mut out, *start);
                out.append(", end: ");
                push_int(&mut out, *end);
                out.append(" }");
                out
            },
        }
    }
}

} // verus!
