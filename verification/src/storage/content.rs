//! Content addressing: BLAKE3 hashes, their hexadecimal form, and the
//! Merkle root of a list of chunk hashes.

use vstd::prelude::*;
use crate::error::{HexError, LatticeError};
use crate::text::string_of;
use vstd::string::StringSliceAdditionalSpecFns;
use vstd::utf8::{encode_utf8, is_ascii_chars, is_ascii_chars_encode_utf8};

verus! {

/// A content address: a BLAKE3 hash.
pub type Hash = [u8; 32];

/// The BLAKE3 digest of some bytes.
pub uninterp spec fn blake3_digest(data: Seq<u8>) -> Seq<u8>;

/// `blake3::hash(data)`, as its 32 bytes. Claimed: the result is the named
/// digest.
#[verifier::external_body]
pub(crate) fn blake3_hash(data: &[u8]) -> (r: Hash)
    ensures
        r@ == blake3_digest(data@),
{
    blake3::hash(data).into()
}

/// The ASCII code of the lowercase hex digit of a value below 16.
pub open spec fn hex_digit_code(v: u8) -> u8 {
    if v < 10 { (48 + v) as u8 } else { (87 + v) as u8 }
}

/// The lowercase hex digit of a value below 16.
pub open spec fn hex_digit(v: u8) -> char {
    hex_digit_code(v) as char
}

/// Lowercase hexadecimal text of bytes, two digits per byte, high nibble first.
pub open spec fn hex_text(data: Seq<u8>) -> Seq<char> {
    Seq::new(2 * data.len(), |i: int| if i % 2 == 0 { hex_digit(data[i / 2] / 16) } else { hex_digit(data[i / 2] % 16) })
}

/// The value of a hex digit byte (`0-9`, `a-f`, `A-F`).
pub open spec fn hex_value(c: u8) -> Option<u8> {
    if 48 <= c <= 57 {
        Some((c - 48) as u8)
    } else if 97 <= c <= 102 {
        Some((c - 87) as u8)
    } else if 65 <= c <= 70 {
        Some((c - 55) as u8)
    } else {
        None
    }
}

/// Distinct bytes are distinct characters.
pub proof fn lemma_byte_char(a: u8, b: u8)
    requires
        a as char == b as char,
    ensures
        a == b,
{
}

/// `j` is the first byte that is not a hex digit.
pub open spec fn is_first_bad_hex(b: Seq<u8>, j: int) -> bool {
    0 <= j < b.len() && hex_value(b[j]) is None && forall|k: int| 0 <= k < j ==> hex_value(b[k]) is Some
}

/// What `hex::decode` yields for the bytes of a text: `OddLength` for an odd
/// count, the first byte that is no hex digit (as a char, with its index),
/// or the decoded bytes.
pub open spec fn hex_decode_spec(b: Seq<u8>) -> Result<Seq<u8>, HexError> {
    if b.len() % 2 != 0 {
        Err(HexError::OddLength)
    } else if exists|j: int| is_first_bad_hex(b, j) {
        let j = choose|j: int| is_first_bad_hex(b, j);
        Err(HexError::InvalidHexCharacter { c: b[j] as char, index: j as usize })
    } else {
        Ok(Seq::new(b.len() / 2, |i: int| (hex_value(b[2 * i])->0 * 16 + hex_value(b[2 * i + 1])->0) as u8))
    }
}

/// `hex::encode(data)`. Claimed, as the crate documents and its source shows:
/// two lowercase hex digits per byte, high nibble first.
#[verifier::external_body]
pub(crate) fn hex_encode(data: &[u8]) -> (r: String)
    ensures
        r@ == hex_text(data@),
{
    hex::encode(data)
}

/// `hex::decode(text)`, its error mapped variant by variant. Claimed, as the
/// crate's source shows: the result is `hex_decode_spec` of the text's bytes.
#[verifier::external_body]
pub(crate) fn hex_decode(text: &str) -> (r: Result<Vec<u8>, HexError>)
    ensures
        match r {
            Ok(v) => hex_decode_spec(text.spec_bytes()) == Ok::<Seq<u8>, HexError>(v@),
            Err(e) => hex_decode_spec(text.spec_bytes()) == Err::<Seq<u8>, HexError>(e),
        },
{
    match hex::decode(text) {
        Ok(v) => Ok(v),
        Err(hex::FromHexError::InvalidHexCharacter { c, index }) => Err(HexError::InvalidHexCharacter { c, index }),
        Err(hex::FromHexError::OddLength) => Err(HexError::OddLength),
        Err(hex::FromHexError::InvalidStringLength) => Err(HexError::InvalidStringLength),
    }
}

/// The BLAKE3 hash of some data.
pub fn compute_hash(data: &[u8]) -> (r: Hash)
    ensures
        r@ == blake3_digest(data@),
{
    blake3_hash(data)
}

/// A hash as lowercase hexadecimal text.
pub fn hash_to_hex(hash: &Hash) -> (r: String)
    ensures
        r@ == hex_text(hash@),
{
    hex_encode(hash)
}

/// Hexadecimal text (either case) as a hash; malformed text, or text that
/// does not decode to exactly 32 bytes, is an error.
pub fn hex_to_hash(hex: &str) -> (r: Result<Hash, LatticeError>)
    ensures
        match hex_decode_spec(hex.spec_bytes()) {
            Ok(b) => if b.len() == 32 { r matches Ok(h) && h@ == b } else { r matches Err(e) && e is Serialization },
            Err(e) => r == Err::<Hash, LatticeError>(LatticeError::HexDecode(e)),
        },
{
    match hex_decode(hex) {
        Err(e) => Err(LatticeError::HexDecode(e)),
        Ok(bytes) => {
            if bytes.len() != 32 {
                return Err(LatticeError::Serialization(string_of("Invalid hash length")));
            }
            let mut hash = [0u8; 32];
            let mut i: usize = 0;
            while i < 32
                invariant
                    i <= 32,
                    bytes@.len() == 32,
                    forall|k: int| 0 <= k < i ==> hash@[k] == bytes@[k],
                decreases 32 - i,
            {
                hash[i] = bytes[i];
                i = i + 1;
            }
            assert(hash@ =~= bytes@);
            Ok(hash)
        },
    }
}

/// Decoding the hexadecimal text of bytes gives the bytes back.
pub proof fn lemma_hex_roundtrip(data: Seq<u8>, text: Seq<char>, bytes: Seq<u8>)
    requires
        text == hex_text(data),
        bytes.len() == text.len(),
        forall|i: int| 0 <= i < text.len() ==> bytes[i] as char == text[i],
    ensures
        hex_decode_spec(bytes) == Ok::<Seq<u8>, HexError>(data),
{
    assert forall|i: int| 0 <= i < bytes.len() implies hex_value(#[trigger] bytes[i]) is Some by {
        let v = if i % 2 == 0 { data[i / 2] / 16 } else { data[i / 2] % 16 };
        assert(text[i] == hex_text(data)[i]);
        assert(bytes[i] as char == text[i]);
        assert(bytes[i] as char == hex_digit(v));
        lemma_byte_char(bytes[i], hex_digit_code(v));
    }
    if exists|j: int| is_first_bad_hex(bytes, j) {
        let j = choose|j: int| is_first_bad_hex(bytes, j);
        assert(hex_value(bytes[j]) is Some);
    }
    let out = Seq::new(bytes.len() / 2, |i: int| (hex_value(bytes[2 * i])->0 * 16 + hex_value(bytes[2 * i + 1])->0) as u8);
    assert forall|i: int| 0 <= i < data.len() implies out[i] == data[i] by {
        assert(hex_value(bytes[2 * i]) is Some);
        assert(hex_value(bytes[2 * i + 1]) is Some);
        assert(text[2 * i] == hex_digit(data[i] / 16));
        assert(text[2 * i + 1] == hex_digit(data[i] % 16));
        lemma_byte_char(bytes[2 * i], hex_digit_code(data[i] / 16));
        lemma_byte_char(bytes[2 * i + 1], hex_digit_code(data[i] % 16));
        assert(hex_value(bytes[2 * i]) == Some(data[i] / 16));
        assert(hex_value(bytes[2 * i + 1]) == Some(data[i] % 16));
    }
    assert(out =~= data);
}

/// The hexadecimal text of a hash decodes to the hash: `hex_to_hash` of
/// `hash_to_hex(h)` is `h` (the text's bytes are its ASCII characters).
pub proof fn lemma_hash_hex_roundtrip(data: Seq<u8>)
    ensures
        is_ascii_chars(hex_text(data)),
        hex_decode_spec(encode_utf8(hex_text(data))) == Ok::<Seq<u8>, HexError>(data),
{
    let text = hex_text(data);
    assert forall|i: int| 0 <= i < text.len() implies '\0' <= #[trigger] text[i] <= '\u{7f}' by {
        let v = if i % 2 == 0 { data[i / 2] / 16 } else { data[i / 2] % 16 };
        assert(text[i] == hex_digit(v));
    }
    is_ascii_chars_encode_utf8(text);
    let bytes = encode_utf8(text);
    assert forall|i: int| 0 <= i < text.len() implies bytes[i] as char == text[i] by {
        assert(text[i] as u8 == bytes[i]);
    }
    lemma_hex_roundtrip(data, text, bytes);
}

// ---- Merkle root ----

/// The bytes hashed for the `i`-th parent: the pair of children, or the
/// last child twice when it has no partner.
pub open spec fn pair_input(level: Seq<Seq<u8>>, i: int) -> Seq<u8> {
    level[2 * i] + (if 2 * i + 1 < level.len() { level[2 * i + 1] } else { level[2 * i] })
}

/// The level of parents above a level of hashes.
pub open spec fn next_level(level: Seq<Seq<u8>>) -> Seq<Seq<u8>> {
    Seq::new(((level.len() + 1) / 2) as nat, |i: int| blake3_digest(pair_input(level, i)))
}

/// The root above a non-empty level of hashes.
pub open spec fn merkle_reduce(level: Seq<Seq<u8>>) -> Seq<u8>
    decreases level.len(),
{
    if level.len() <= 1 {
        level[0]
    } else {
        merkle_reduce(next_level(level))
    }
}

/// The Merkle root of chunk hashes: the hash of nothing for none, the hash
/// itself for one, else the pairwise reduction.
pub open spec fn merkle_root_spec(hashes: Seq<Seq<u8>>) -> Seq<u8> {
    if hashes.len() == 0 {
        blake3_digest(seq![])
    } else {
        merkle_reduce(hashes)
    }
}

/// The views of a list of hashes.
pub open spec fn hash_views(hs: Seq<Hash>) -> Seq<Seq<u8>> {
    hs.map_values(|h: Hash| h@)
}

/// Two hashes side by side.
fn concat_hashes(a: &Hash, b: &Hash) -> (r: Vec<u8>)
    ensures
        r@ == a@ + b@,
{
    let mut out: Vec<u8> = Vec::new();
    let mut i: usize = 0;
    while i < 32
        invariant
            i <= 32,
            out@ == a@.take(i as int),
        decreases 32 - i,
    {
        out.push(a[i]);
        i = i + 1;
        assert(out@ =~= a@.take(i as int));
    }
    let mut j: usize = 0;
    while j < 32
        invariant
            j <= 32,
            out@ == a@ + b@.take(j as int),
        decreases 32 - j,
    {
        out.push(b[j]);
        j = j + 1;
        assert(out@ =~= a@ + b@.take(j as int));
    }
    assert(b@.take(32) =~= b@);
    out
}

/// The Merkle root of the chunk hashes, built bottom-up with BLAKE3.
pub fn compute_merkle_root(chunk_hashes: &[Hash]) -> (r: Hash)
    ensures
        r@ == merkle_root_spec(hash_views(chunk_hashes@)),
{
    if chunk_hashes.len() == 0 {
        let empty: Vec<u8> = Vec::new();
        return blake3_hash(empty.as_slice());
    }
    let mut level: Vec<Hash> = Vec::new();
    let mut i: usize = 0;
    while i < chunk_hashes.len()
        invariant
            i <= chunk_hashes@.len(),
            level@ == chunk_hashes@.take(i as int),
        decreases chunk_hashes@.len() - i,
    {
        level.push(chunk_hashes[i]);
        i = i + 1;
        assert(level@ =~= chunk_hashes@.take(i as int));
    }
    assert(level@ =~= chunk_hashes@);
    while level.len() > 1
        invariant
            level@.len() >= 1,
            merkle_reduce(hash_views(level@)) == merkle_reduce(hash_views(chunk_hashes@)),
        decreases level@.len(),
    {
        let ghost lv = hash_views(level@);
        let n = level.len();
        let mut next: Vec<Hash> = Vec::new();
        let mut k: usize = 0;
        while k < n - n / 2
            invariant
                n == level@.len(),
                n >= 2,
                lv == hash_views(level@),
                k <= n - n / 2,
                next@.len() == k,
                forall|m: int| 0 <= m < k ==> #[trigger] next@[m]@ == blake3_digest(pair_input(lv, m)),
            decreases n - n / 2 - k,
        {
            let a = level[2 * k];
            let b = if 2 * k + 1 < n { level[2 * k + 1] } else { level[2 * k] };
            let combined = concat_hashes(&a, &b);
            proof {
                assert(lv[2 * k] == a@);
                if 2 * k + 1 < n {
                    assert(lv[2 * k + 1] == b@);
                }
                assert(combined@ == pair_input(lv, k as int));
            }
            let h = blake3_hash(combined.as_slice());
            next.push(h);
            k = k + 1;
        }
        assert(hash_views(next@) =~= next_level(lv));
        level = next;
    }
    assert(hash_views(chunk_hashes@).len() >= 1);
    level[0]
}

} // verus!
