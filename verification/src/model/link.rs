//! Kinds of links between objects.

use vstd::prelude::*;
use vstd::utf8::is_ascii_chars;
use crate::model::object::{new_uuid_v7, u128_be_bytes, u128_to_be_bytes, uuid_parse, uuid_text, uuid_to_string};
use crate::model::tag::{timestamp_now, ActorID, Timestamp};
use crate::text::{ascii_lowercase, str_eq, string_of, to_lowercase, unicode_lowercase};
use std::collections::HashMap;

verus! {

/// The relationship a link states.
#[derive(Debug, Clone, Copy, PartialEq, Eq, Structural)]
pub enum LinkType {
    /// A is derived from B (a PDF from a DOCX).
    DerivedFrom,
    /// A references B (a citation, a dependency).
    References,
    /// A belongs to collection B.
    BelongsTo,
    /// A replaces B (its successor).
    Replaces,
    /// Some other relationship.
    Related,
}

/// The printed name of a link type.
pub open spec fn link_type_name(t: LinkType) -> Seq<char> {
    match t {
        LinkType::DerivedFrom => "derived-from"@,
        LinkType::References => "references"@,
        LinkType::BelongsTo => "belongs-to"@,
        LinkType::Replaces => "replaces"@,
        LinkType::Related => "related"@,
    }
}

/// The link type named by an already lowercased name.
pub open spec fn link_type_from_lower(lower: Seq<char>) -> Option<LinkType> {
    if lower == "derived-from"@ || lower == "derivedfrom"@ {
        Some(LinkType::DerivedFrom)
    } else if lower == "references"@ {
        Some(LinkType::References)
    } else if lower == "belongs-to"@ || lower == "belongsto"@ {
        Some(LinkType::BelongsTo)
    } else if lower == "replaces"@ {
        Some(LinkType::Replaces)
    } else if lower == "related"@ {
        Some(LinkType::Related)
    } else {
        None
    }
}

impl LinkType {
    /// Membership and succession chain: `BelongsTo` and `Replaces` are transitive.
    pub fn is_transitive(&self) -> (r: bool)
        ensures
            r == (*self == LinkType::BelongsTo || *self == LinkType::Replaces),
    {
        match self {
            LinkType::BelongsTo | LinkType::Replaces => true,
            _ => false,
        }
    }

    /// Only `Related` holds in both directions.
    pub fn is_bidirectional(&self) -> (r: bool)
        ensures
            r == (*self == LinkType::Related),
    {
        match self {
            LinkType::Related => true,
            _ => false,
        }
    }

    /// The printed name (what `Display` shows).
    pub fn to_string(&self) -> (r: String)
        ensures
            r@ == link_type_name(*self),
    {
        match self {
            LinkType::DerivedFrom => string_of("derived-from"),
            LinkType::References => string_of("references"),
            LinkType::BelongsTo => string_of("belongs-to"),
            LinkType::Replaces => string_of("replaces"),
            LinkType::Related => string_of("related"),
        }
    }

    /// Parse a link type name, ignoring case; the error names the input.
    pub fn from_name(s: &str) -> (r: Result<LinkType, String>)
        ensures
            link_type_from_lower(unicode_lowercase(s@)) matches Some(t) ==> r == Ok::<LinkType, String>(t),
            link_type_from_lower(unicode_lowercase(s@)) is None ==> (r matches Err(e)
                && e@ == "Invalid link type: "@ + s@),
    {
        let lower = to_lowercase(s);
        let lc = lower.as_str();
        if str_eq(lc, "derived-from") || str_eq(lc, "derivedfrom") {
            Ok(LinkType::DerivedFrom)
        } else if str_eq(lc, "references") {
            Ok(LinkType::References)
        } else if str_eq(lc, "belongs-to") || str_eq(lc, "belongsto") {
            Ok(LinkType::BelongsTo)
        } else if str_eq(lc, "replaces") {
            Ok(LinkType::Replaces)
        } else if str_eq(lc, "related") {
            Ok(LinkType::Related)
        } else {
            let mut msg = string_of("Invalid link type: ");
            msg.append(s);
            Err(msg)
        }
    }
}

impl std::str::FromStr for LinkType {
    type Err = String;

    fn from_str(s: &str) -> Result<LinkType, String> {
        LinkType::from_name(s)
    }
}

/// Parsing the printed name of a link type gives the type back.
pub proof fn lemma_link_name_roundtrip(t: LinkType)
    ensures
        is_ascii_chars(link_type_name(t)),
        ascii_lowercase(link_type_name(t)) == link_type_name(t),
        link_type_from_lower(link_type_name(t)) == Some(t),
{
    reveal_strlit("derived-from");
    reveal_strlit("derivedfrom");
    reveal_strlit("references");
    reveal_strlit("belongs-to");
    reveal_strlit("belongsto");
    reveal_strlit("replaces");
    reveal_strlit("related");
    assert(ascii_lowercase(link_type_name(t)) =~= link_type_name(t));
    assert("derived-from"@[0] != "references"@[0] && "derived-from"@[0] != "belongs-to"@[0]
        && "derived-from"@[0] != "replaces"@[0] && "derived-from"@[0] != "related"@[0]);
    assert("derivedfrom"@[0] != "references"@[0] && "derivedfrom"@[0] != "belongs-to"@[0]
        && "derivedfrom"@[0] != "replaces"@[0] && "derivedfrom"@[0] != "related"@[0]);
    assert("references"@[0] != "belongs-to"@[0] && "belongsto"@[0] != "references"@[0]);
    assert("references"@[2] != "replaces"@[2] && "references"@[2] != "related"@[2]);
    assert("belongs-to"@[0] != "replaces"@[0] && "belongs-to"@[0] != "related"@[0]);
    assert("belongsto"@[0] != "replaces"@[0] && "belongsto"@[0] != "related"@[0]);
    assert("replaces"@[2] != "related"@[2]);
}


/// Link identifier: a UUID, held as its 128-bit value.
#[derive(Debug, Clone, Copy, PartialEq, Eq, Hash, Structural)]
pub struct LinkID(pub u128);

impl LinkID {
    /// A fresh identifier (a time-ordered random UUID).
    pub fn new() -> (r: LinkID) {
        LinkID(new_uuid_v7())
    }

    /// The identifier with this UUID value.
    pub fn from_uuid(uuid: u128) -> (r: LinkID)
        ensures
            r.0 == uuid,
    {
        LinkID(uuid)
    }

    /// The 16 bytes of the UUID, most significant first.
    pub fn to_bytes(&self) -> (r: [u8; 16])
        ensures
            r@ == u128_be_bytes(self.0),
    {
        u128_to_be_bytes(self.0)
    }

    /// The hyphenated text of the UUID (what `Display` prints).
    pub fn to_string(&self) -> (r: String)
        ensures
            r@ == uuid_text(self.0),
            uuid_parse(r@) == Some(self.0),
    {
        uuid_to_string(self.0)
    }
}

/// A link between two objects (given by the bytes of their identifiers).
#[derive(Debug, Clone)]
pub struct Link {
    pub id: LinkID,
    pub source: Vec<u8>,
    pub target: Vec<u8>,
    pub link_type: LinkType,
    pub created_at: Timestamp,
    pub created_by: ActorID,
    pub metadata: Option<HashMap<String, String>>,
}

impl Link {
    /// A new link, made now, without metadata.
    pub fn new(source: Vec<u8>, target: Vec<u8>, link_type: LinkType, created_by: ActorID) -> (r: Link)
        ensures
            r.source@ == source@,
            r.target@ == target@,
            r.link_type == link_type,
            r.created_by == created_by,
            r.metadata is None,
    {
        Link {
            id: LinkID::new(),
            source,
            target,
            link_type,
            created_at: timestamp_now(),
            created_by,
            metadata: None,
        }
    }

    /// A new link, made now, with metadata.
    pub fn with_metadata(
        source: Vec<u8>,
        target: Vec<u8>,
        link_type: LinkType,
        created_by: ActorID,
        metadata: HashMap<String, String>,
    ) -> (r: Link)
        ensures
            r.source@ == source@,
            r.target@ == target@,
            r.link_type == link_type,
            r.created_by == created_by,
            r.metadata == Some(metadata),
    {
        Link {
            id: LinkID::new(),
            source,
            target,
            link_type,
            created_at: timestamp_now(),
            created_by,
            metadata: Some(metadata),
        }
    }
}

} // verus!
