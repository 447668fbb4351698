//! Trust levels and the gating of executables, read from an object's tags.

use vstd::prelude::*;
use crate::model::tag::Tag;
use crate::text::{parse_u8, str_eq, u8_text_value};

verus! {

/// Trust level of an object without a readable `sys:trust` tag.
pub const DEFAULT_TRUST: u8 = 75;

/// Trust level from which an executable may run.
pub const EXECUTABLE_TRUST: u8 = 90;

/// `i` is the first tag with key `sys:trust`.
pub open spec fn is_first_trust_tag(tags: Seq<Tag>, i: int) -> bool {
    &&& 0 <= i < tags.len()
    &&& tags[i].key@ == "sys:trust"@
    &&& forall|j: int| 0 <= j < i ==> tags[j].key@ != "sys:trust"@
}

/// The trust level the tags give: the value of the first `sys:trust` tag when
/// it reads as a `u8`, else 75.
pub open spec fn trust_level_of(tags: Seq<Tag>) -> u8 {
    if exists|i: int| is_first_trust_tag(tags, i) {
        match u8_text_value(tags[choose|i: int| is_first_trust_tag(tags, i)].value@) {
            Some(v) => v,
            None => DEFAULT_TRUST,
        }
    } else {
        DEFAULT_TRUST
    }
}

/// Some tag is `auto:executable` = `true`.
pub open spec fn has_executable_tag_spec(tags: Seq<Tag>) -> bool {
    exists|i: int| 0 <= i < tags.len() && tags[i].key@ == "auto:executable"@ && tags[i].value@ == "true"@
}

/// The numeric trust level derived from the tags (75 by default).
pub fn trust_level(tags: &[Tag]) -> (r: u8)
    ensures
        r == trust_level_of(tags@),
{
    let mut i: usize = 0;
    while i < tags.len()
        invariant
            i <= tags@.len(),
            forall|j: int| 0 <= j < i ==> tags@[j].key@ != "sys:trust"@,
        decreases tags@.len() - i,
    {
        if str_eq(tags[i].key.as_str(), "sys:trust") {
            proof {
                assert(is_first_trust_tag(tags@, i as int));
                let k = choose|k: int| is_first_trust_tag(tags@, k);
                if k < i {
                    assert(tags@[k].key@ != "sys:trust"@);
                } else if i < k {
                    assert(tags@[i as int].key@ != "sys:trust"@);
                }
            }
            return match parse_u8(tags[i].value.as_str()) {
                Some(v) => v,
                None => DEFAULT_TRUST,
            };
        }
        i = i + 1;
    }
    proof {
        if exists|k: int| is_first_trust_tag(tags@, k) {
            let k = choose|k: int| is_first_trust_tag(tags@, k);
            assert(tags@[k].key@ != "sys:trust"@);
        }
    }
    DEFAULT_TRUST
}

/// Whether the object is tagged as executable (`auto:executable` = `true`).
pub fn has_executable_tag(tags: &[Tag]) -> (r: bool)
    ensures
        r == has_executable_tag_spec(tags@),
{
    let mut i: usize = 0;
    while i < tags.len()
        invariant
            i <= tags@.len(),
            forall|j: int|
                0 <= j < i ==> !(tags@[j].key@ == "auto:executable"@ && tags@[j].value@ == "true"@),
        decreases tags@.len() - i,
    {
        if str_eq(tags[i].key.as_str(), "auto:executable") && str_eq(tags[i].value.as_str(), "true") {
            return true;
        }
        i = i + 1;
    }
    false
}

/// An executable whose trust level is below 90 is kept from running.
pub fn is_quarantined_executable(tags: &[Tag]) -> (r: bool)
    ensures
        r == (has_executable_tag_spec(tags@) && trust_level_of(tags@) < EXECUTABLE_TRUST),
{
    has_executable_tag(tags) && trust_level(tags) < EXECUTABLE_TRUST
}

/// The first `sys:trust` tag decides the trust level: tags added after
/// one leave the level as it was, and so does a tag of another key; with no
/// trust tag the level is 75.
pub proof fn lemma_first_trust_tag_decides(tags: Seq<Tag>, t: Tag)
    ensures
        (exists|i: int| 0 <= i < tags.len() && tags[i].key@ == "sys:trust"@) ==> trust_level_of(tags.push(t))
            == trust_level_of(tags),
        t.key@ != "sys:trust"@ ==> trust_level_of(tags.push(t)) == trust_level_of(tags),
        (forall|i: int| 0 <= i < tags.len() ==> tags[i].key@ != "sys:trust"@) ==> trust_level_of(tags) == 75,
{
    let pushed = tags.push(t);
    if exists|i: int| is_first_trust_tag(tags, i) {
        let i = choose|i: int| is_first_trust_tag(tags, i);
        assert(is_first_trust_tag(pushed, i));
        let k = choose|k: int| is_first_trust_tag(pushed, k);
        if k < i {
            assert(pushed[k] == tags[k]);
        } else if i < k {
            assert(pushed[i] == tags[i]);
        }
        assert(pushed[i] == tags[i]);
    } else {
        if exists|i: int| 0 <= i < tags.len() && tags[i].key@ == "sys:trust"@ {
            let i = choose|i: int| 0 <= i < tags.len() && tags[i].key@ == "sys:trust"@;
            lemma_some_first_trust_tag(tags, i);
        }
        if t.key@ != "sys:trust"@ {
            if exists|k: int| is_first_trust_tag(pushed, k) {
                let k = choose|k: int| is_first_trust_tag(pushed, k);
                if k < tags.len() {
                    assert(pushed[k] == tags[k]);
                    assert forall|j: int| 0 <= j < k implies tags[j].key@ != "sys:trust"@ by {
                        assert(pushed[j] == tags[j]);
                    }
                    assert(is_first_trust_tag(tags, k));
                }
            }
        }
    }
}

/// A list with a `sys:trust` tag has a first one.
proof fn lemma_some_first_trust_tag(tags: Seq<Tag>, i: int)
    requires
        0 <= i < tags.len(),
        tags[i].key@ == "sys:trust"@,
    ensures
        exists|k: int| is_first_trust_tag(tags, k),
    decreases i,
{
    if exists|j: int| 0 <= j < i && tags[j].key@ == "sys:trust"@ {
        let j = choose|j: int| 0 <= j < i && tags[j].key@ == "sys:trust"@;
        lemma_some_first_trust_tag(tags, j);
    } else {
        assert(is_first_trust_tag(tags, i));
    }
}

} // verus!
