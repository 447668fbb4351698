//! Inode numbers for the mounted file system.

use vstd::prelude::*;
use crate::storage::content::{blake3_digest, blake3_hash};
use vstd::string::StringSliceAdditionalSpecFns;

verus! {

/// The root directory.
pub const ROOT_INODE: u64 = 1;
/// `/views`
pub const VIEWS_INODE: u64 = 2;
/// `/projects`
pub const PROJECTS_INODE: u64 = 3;
/// `/recent`
pub const RECENT_INODE: u64 = 4;
/// The last reserved inode.
pub const RESERVED_MAX: u64 = 4;

/// The little-endian value of bytes.
pub open spec fn le_value(b: Seq<u8>) -> nat
    decreases b.len(),
{
    if b.len() == 0 {
        0
    } else {
        b[0] as nat + 256 * le_value(b.drop_first())
    }
}

/// The inode a hash gives: its first 8 bytes read little-endian.
pub open spec fn inode_of_digest(d: Seq<u8>) -> u64 {
    le_value(d.take(8)) as u64
}

/// Inodes at or below the reserved ones move up past them.
pub open spec fn past_reserved(inode: u64) -> u64 {
    if inode <= RESERVED_MAX { (inode + RESERVED_MAX + 1) as u64 } else { inode }
}

/// The bytes `view:` followed by the name's UTF-8 bytes.
pub open spec fn view_key(name_bytes: Seq<u8>) -> Seq<u8> {
    "view:"@.map_values(|c: char| c as u8) + name_bytes
}

/// 256 to the power `n`.
pub open spec fn pow256(n: nat) -> nat
    decreases n,
{
    if n == 0 { 1 } else { 256 * pow256((n - 1) as nat) }
}

proof fn lemma_le_value_bound(b: Seq<u8>)
    ensures
        le_value(b) < pow256(b.len()),
    decreases b.len(),
{
    if b.len() > 0 {
        lemma_le_value_bound(b.drop_first());
        assert(b[0] as nat + 256 * le_value(b.drop_first()) < 256 * pow256((b.len() - 1) as nat)) by (nonlinear_arith)
            requires
                b[0] < 256,
                le_value(b.drop_first()) < pow256((b.len() - 1) as nat),
        {
        }
    }
}

proof fn lemma_pow256_monotonic(a: nat, b: nat)
    requires
        a <= b,
    ensures
        pow256(a) <= pow256(b),
    decreases b,
{
    if a < b {
        lemma_pow256_monotonic(a, (b - 1) as nat);
    }
}

/// The first 8 bytes of a hash, read little-endian.
fn hash_to_inode(bytes: &[u8]) -> (r: u64)
    ensures
        r == inode_of_digest(blake3_digest(bytes@)),
{
    let hash = blake3_hash(bytes);
    let ghost d = hash@.take(8);
    let mut v: u64 = 0;
    let mut i: usize = 8;
    proof {
        assert(d.skip(8) =~= Seq::<u8>::empty());
    }
    while i > 0
        invariant
            i <= 8,
            d == hash@.take(8),
            v as nat == le_value(d.skip(i as int)),
            le_value(d.skip(i as int)) < pow256((8 - i) as nat),
        decreases i,
    {
        i = i - 1;
        assert(d.skip(i as int).drop_first() =~= d.skip(i + 1));
        proof {
            lemma_le_value_bound(d.skip(i as int));
            lemma_pow256_monotonic((8 - i) as nat, 8);
            reveal_with_fuel(pow256, 9);
            assert(pow256(8) == 18446744073709551616);
        }
        v = (hash[i] as u64) + 256 * v;
    }
    assert(d.skip(0) =~= d);
    v
}

/// The inode of a view's directory: the hash of `view:` and the name, moved
/// past the reserved inodes.
pub fn inode_for_view_name(name: &str) -> (r: u64)
    ensures
        r == past_reserved(inode_of_digest(blake3_digest(view_key(name.spec_bytes())))),
{
    let mut data: Vec<u8> = vec![118u8, 105u8, 101u8, 119u8, 58u8];
    let nb = name.as_bytes();
    let mut i: usize = 0;
    while i < nb.len()
        invariant
            i <= nb@.len(),
            data@ == seq![118u8, 105u8, 101u8, 119u8, 58u8] + nb@.take(i as int),
        decreases nb@.len() - i,
    {
        data.push(nb[i]);
        i = i + 1;
        assert(data@ =~= seq![118u8, 105u8, 101u8, 119u8, 58u8] + nb@.take(i as int));
    }
    proof {
        reveal_strlit("view:");
        assert(nb@.take(i as int) =~= nb@);
        assert("view:"@.map_values(|c: char| c as u8) =~= seq![118u8, 105u8, 101u8, 119u8, 58u8]);
    }
    let inode = hash_to_inode(data.as_slice());
    if inode <= RESERVED_MAX {
        inode + RESERVED_MAX + 1
    } else {
        inode
    }
}

} // verus!
