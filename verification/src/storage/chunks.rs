//! Content-defined chunking (FastCDC with a Gear rolling hash).

use vstd::prelude::*;
use crate::config::{path_join, path_join_spec};
use crate::error::LatticeError;
use crate::storage::content::{
    blake3_digest, blake3_hash, compute_merkle_root, hash_to_hex, hash_views, hex_text, merkle_root_spec,
};

verus! {

/// Smallest chunk that is cut before the end of the data (8 KiB).
pub const MIN_CHUNK_SIZE: usize = 8192;
/// Target average chunk size (16 KiB).
pub const AVG_CHUNK_SIZE: usize = 16384;
/// Largest chunk (64 KiB).
pub const MAX_CHUNK_SIZE: usize = 65536;
/// Cut-point mask: 13 bits, for an average of 16 KiB.
pub const MASK: u64 = 8191;

/// Gear hash table (deterministic; BLAKE3 of a fixed prefix and the byte).
pub const GEAR_TABLE: [u64; 256] = [
    0xa120aeeaa4f77e94, 0x19cea902d55f222e, 0xbd0ee54454fb3417, 0xaf7485d934f09354,
    0x4aa734f8a840e431, 0x54a475ed786a997b, 0x9b7c7007d5dd675d, 0xf3f0223bc0da7eb9,
    0x7a307a4d47c5badb, 0x99aeafc1526cd770, 0x71b80fa1b525c5df, 0x4b3d139b79b514f5,
    0x718073325970f7f3, 0x6f8193645be60e63, 0xd9dc1815fab16af6, 0x4b2afb9854951c2c,
    0x098ac0a611cf3510, 0xbd419a870c8d8d1b, 0x3a7dcdd3d1a9f30e, 0xe80bdb95355b42a2,
    0x375cffb7342f1e19, 0x8de5baf0b7aeabea, 0x238240680b731654, 0x19c950b44f8c6841,
    0xe8270b9a06763ef0, 0xedabc70367191a8f, 0x79475ca80c1c2b97, 0xb1fecc4c3370dc8e,
    0x83eb257c2ee7de3f, 0x80dafa32d1c5cd2c, 0x308bcc99105fcde5, 0xd7e3b78956e3f6f7,
    0x6ad05c740bac274b, 0xf79ba156d0c4b756, 0x837ace3e1783849d, 0x229d9fdc01d38801,
    0x568672338e24f233, 0x1b08e5cdd7326af0, 0xe3ba1a4c474383dd, 0xa65256d1105d6299,
    0x3dc9bf3e083dcbce, 0xc1701f9e8c23c323, 0xd04a82a69cc3b3e9, 0x4b761fe9128d52bf,
    0xe82f794d2fd6bec6, 0xd6a31c37185dc22e, 0x336a41f290f16573, 0xc5dbc1d171d1d505,
    0x44db5b7bc0b8b3e5, 0x8beb0587e0e576a4, 0x3be3052daa5354f2, 0x72b8bd99fd4b1a9a,
    0xdf8375527141c59d, 0x0b6dbe4e2878c39f, 0x29846ad9f9a055f6, 0xfee5ad2f3b6397f8,
    0xe25c5b54b72388cc, 0xd5fd8d33e21a7fd2, 0x0cb101d6c4bbfb41, 0xc4fd219b3b5e5337,
    0x56a422a62c5f785d, 0x7c18f720af199209, 0xd5ba2c0117e4fb3b, 0x96bf5f7efec5ec26,
    0x6146d324b9343571, 0xc23cba32a3e3c314, 0x72c333994669785c, 0xd5027735118e5c30,
    0xa86b8a197d7774cf, 0xf735a26204eb094c, 0xf1131ba4759e3c99, 0xb49ce0f25e65976a,
    0x92b147c4d281c9e5, 0x7504e48340d19b48, 0x4cdd3ae536e01ed2, 0x27a9e51b4d087a88,
    0xc02f0928cc3e53fb, 0x9e6160b3aff3d645, 0xa214409f2669b90e, 0x26e59ed692cec5cf,
    0xe83f8fc00d986957, 0x1fee79dc0f2af1df, 0xde45568d4f746038, 0x7236a70b4e88778a,
    0xa5825c6094117355, 0x64cdf6d97a50ca8b, 0xee1c0460f267a599, 0x5473c4757d14ace1,
    0xd2e93e5e32106d20, 0xc592a71ea0e562a2, 0x64e0b6a83eacf55d, 0xce4aa49875ca0c37,
    0x9eff43e428331e04, 0x133828cc56934c82, 0x1b9b934e63b3d9db, 0xbbe5f71e4262c2ff,
    0x9a5679d41b667283, 0x49a26e825c4f9b04, 0x49b2efdacd217906, 0x3624bf17107cb060,
    0x595b5e8314384303, 0xf44d9ffba16d01b5, 0x2721f02887ba6d0d, 0x12870fad9719b765,
    0xadb5a38a1d522605, 0xba9c71da3ec5904b, 0xb12f366462af733a, 0xaac6e08b64ca60da,
    0x0d826e8d460ce720, 0x3f01e1c2c8c98e78, 0x69ffea610109680f, 0xdf1dbc049381861d,
    0x5c724067d568c0f2, 0x1ba47164a4bf6d88, 0xa8b9a0e8dca93bef, 0xeec088468dc64526,
    0x86a481a593e2d4a3, 0xd24eb992cb8d029b, 0x87941b4a96b61b82, 0xb4bf6dd04d91aa65,
    0x5841ed1b2d01b25c, 0xcc3986b5611be726, 0xe8d7bef92685cf9a, 0x28ec918efbe4ce5d,
    0xf06ec68ea2afb69c, 0x886d058ff9a754f1, 0xf38354454794d1af, 0x66ef8c6e13395b86,
    0x88a69b781537cd10, 0x0b83994d50652048, 0xe7d36765f259321b, 0x30b38e435060803c,
    0x137ddb0258e47b26, 0x9027ae44d029f2af, 0xe42d819d985f3975, 0x20f4a7e1e009ec25,
    0xaf99f2a0d887a782, 0x2de098f822035a99, 0x1cecdf9b9e11fec6, 0x5ce73bfe4afac4d7,
    0xb98ef305701d68dc, 0xa4dca7923dc4a3c0, 0xd4dd45d38bcc94ec, 0xcce7fce40d31d216,
    0x8315e64a06354f41, 0xa40af68a09ae98f5, 0xacd18b04b53ed524, 0xc5b072387476ef29,
    0x5e769ec932fa5a60, 0x6dcf53e66874f8ad, 0x914405af08793672, 0xbd66f7673faa1f10,
    0xe63f0cbd5219a35b, 0xc5c927659cd530f4, 0xc0d8d505a9df4f1c, 0xd9c27ecb568f9367,
    0x028288031742694d, 0x9d68d46f2af3db02, 0xedf8a63868d238d8, 0x29c2b357c9f041a5,
    0x6f63431f0538695f, 0x2bb19ae07d4de965, 0x191cb20eb36a8300, 0x86dfd19fb5512d90,
    0x980a48ce545db6b3, 0x2d8ac0ec57e3b37a, 0x009f5deceb5693da, 0x431957459bb918cc,
    0xf7186f6c6ff3940d, 0x94b0854470adb845, 0x3fc89b6febc91245, 0x32390f01c541e3f8,
    0x885c8ad9935c3260, 0x75b77344a49621ce, 0x84d80938ae8c156e, 0x6857b9ff31c10f05,
    0x29e64b2388784856, 0x3838fb663e13e644, 0x8425b9fcec6f0ec9, 0x448060557ea4112a,
    0x57598d6e9d756d5c, 0x8ee9d776924dda66, 0xcc0bdfc8732636cb, 0xc8723c80c39abdc5,
    0xacd8246bd63c71fb, 0x436885e1123274b0, 0xe2fb7b9436d150d3, 0xe2b863925be5ccf4,
    0x5f86853a568ef6f7, 0xf236404fe151e705, 0x1d9437680de00b6f, 0x2c294cfd80f15584,
    0x7f989cf2a4f25286, 0xaf35a35bbd0c2600, 0x56ca1cd9592afd18, 0x9fa8c3d5e2176363,
    0x246e71bf35165d3d, 0xd7554bbb39af224b, 0x55985619ebbf4746, 0xa55c853bc4d0466e,
    0x8e3a85b4c7871b47, 0x08a48ca29db41388, 0x231477731cd26540, 0x4260d6296a80bc9f,
    0x1da22151c4106a2c, 0x318bfeff3e0f83e8, 0xe3b61b67c48687aa, 0x20956090449c96db,
    0x31a486254ea39034, 0x598769a07047fafd, 0x86773d0b4ad45d14, 0x02e6ab855e3db571,
    0x1813c9c5e3c86146, 0x0a0191cafdd98442, 0xa128e97bdac45b5a, 0x339cdb9f14d4551f,
    0xeb4c9814c67e2d1d, 0xc8012775a119cb5d, 0xb4a086293b9792a9, 0x37e1f12ef46da377,
    0xa175db8d473d0da0, 0x4dea4a2cfa14c7e7, 0x298ba2caf0646b10, 0xe042339e3318addb,
    0x9d169ec5f4ca1180, 0x345b8bee750a70c7, 0x4fcf320257505716, 0x5c5ac1a375d8d37d,
    0x73bd2677126c79f2, 0x24e94149f80ceb5b, 0x01e535a8180ff7a9, 0x236bcdf45e2adf2a,
    0xa6001b88139e7e86, 0x24a9d1dfb236e164, 0x636d58287b743992, 0xfc05e14bb4a980f2,
    0x17b6ec67ec897c3d, 0x78c058d48fe466e4, 0x5abed414a07d4017, 0x870dc5e854798eed,
    0x7f1ed5ccd340ede3, 0x179e123f39fca908, 0xe2094b5948f38bd1, 0x66924c4179ed03d3,
    0x2e0fc4e38a9c487f, 0xd180cdc43273f186, 0xdc1749fe12261907, 0x22b28c53dbc8e771,
    0xa46f6e044e6b9fea, 0x919f6770f112cd02, 0xedf0ecd52b27cc99, 0x32f86082647ee451,
    0x194133e12e1290fc, 0x7521d37ce116ab19, 0xdb388d76ea765ed6, 0x6acd033a263c993f,
];

/// A chunk of the input: `length` bytes starting at `offset`.
#[derive(Debug, Clone, Copy, PartialEq, Eq, Structural)]
pub struct ChunkBoundary {
    pub offset: usize,
    pub length: usize,
}

/// One step of the Gear rolling hash.
pub open spec fn gear_step(hash: u64, byte: u8) -> u64 {
    (hash << 1u64).wrapping_add(GEAR_TABLE@[byte as int])
}

/// The cut point found by scanning `data[p..end]` with the rolling hash
/// started at `hash`: one past the first byte after which the low 13 bits of
/// the hash are zero, or `end`.
pub open spec fn cut_point(data: Seq<u8>, p: int, end: int, hash: u64) -> int
    decreases end - p,
{
    if p >= end || p < 0 || p >= data.len() {
        p
    } else {
        let h = gear_step(hash, data[p]);
        if h & MASK == 0 || p + 1 >= end {
            p + 1
        } else {
            cut_point(data, p + 1, end, h)
        }
    }
}

pub open spec fn min_int(a: int, b: int) -> int {
    if a <= b { a } else { b }
}

/// The chunks of `data[pos..]`, as (offset, length) pairs.
pub open spec fn chunks_from(data: Seq<u8>, pos: int) -> Seq<(int, int)>
    decreases data.len() - pos,
{
    if pos < 0 || pos >= data.len() {
        seq![]
    } else {
        let end = min_int(pos + MAX_CHUNK_SIZE, data.len() as int);
        let p1 = pos + min_int(MIN_CHUNK_SIZE as int, data.len() - pos);
        if p1 >= data.len() {
            seq![(pos, data.len() - pos)]
        } else {
            let c = cut_point(data, p1, end, 0);
            if c <= pos || c > data.len() {
                seq![]
            } else {
                seq![(pos, c - pos)] + chunks_from(data, c)
            }
        }
    }
}

pub open spec fn boundary_view(b: ChunkBoundary) -> (int, int) {
    (b.offset as int, b.length as int)
}

/// The chunks tile `data[start..]`: each starts where the previous one ended,
/// the last ends at the end of the data, none is empty or longer than
/// `MAX_CHUNK_SIZE`, and every chunk but the last is at least `MIN_CHUNK_SIZE`.
pub open spec fn tiles(data_len: int, start: int, cs: Seq<(int, int)>) -> bool {
    &&& (cs.len() == 0 <==> start >= data_len)
    &&& cs.len() > 0 ==> cs[0].0 == start
    &&& forall|i: int| 0 <= i < cs.len() ==> 0 < #[trigger] cs[i].1 <= MAX_CHUNK_SIZE
    &&& forall|i: int| 0 <= i < cs.len() - 1 ==> #[trigger] cs[i].1 >= MIN_CHUNK_SIZE
    &&& forall|i: int| 0 <= i < cs.len() - 1 ==> cs[i + 1].0 == #[trigger] cs[i].0 + cs[i].1
    &&& cs.len() > 0 ==> cs.last().0 + cs.last().1 == data_len
}

proof fn lemma_cut_point_bounds(data: Seq<u8>, p: int, end: int, hash: u64)
    requires
        0 <= p < end <= data.len(),
    ensures
        p < cut_point(data, p, end, hash) <= end,
    decreases end - p,
{
    let h = gear_step(hash, data[p]);
    if !(h & MASK == 0 || p + 1 >= end) {
        lemma_cut_point_bounds(data, p + 1, end, h);
    }
}

/// Chunking tiles the input.
pub proof fn lemma_chunks_tile(data: Seq<u8>, pos: int)
    requires
        0 <= pos,
    ensures
        tiles(data.len() as int, pos, chunks_from(data, pos)),
    decreases data.len() - pos,
{
    if pos < data.len() {
        let end = min_int(pos + MAX_CHUNK_SIZE, data.len() as int);
        let p1 = pos + min_int(MIN_CHUNK_SIZE as int, data.len() - pos);
        if p1 < data.len() {
            lemma_cut_point_bounds(data, p1, end, 0);
            let c = cut_point(data, p1, end, 0);
            lemma_chunks_tile(data, c);
            let rest = chunks_from(data, c);
            let cs = chunks_from(data, pos);
            assert(cs == seq![(pos, c - pos)] + rest);
            assert forall|i: int| 0 <= i < cs.len() - 1 implies cs[i + 1].0 == #[trigger] cs[i].0 + cs[i].1 by {
                if i > 0 {
                    assert(cs[i] == rest[i - 1]);
                    assert(cs[i + 1] == rest[i]);
                }
            }
            assert forall|i: int| 0 <= i < cs.len() implies 0 < #[trigger] cs[i].1 <= MAX_CHUNK_SIZE by {
                if i > 0 {
                    assert(cs[i] == rest[i - 1]);
                }
            }
            assert forall|i: int| 0 <= i < cs.len() - 1 implies #[trigger] cs[i].1 >= MIN_CHUNK_SIZE by {
                if i > 0 {
                    assert(cs[i] == rest[i - 1]);
                }
            }
        }
    }
}

/// Split `data` into content-defined chunks (FastCDC with a Gear hash).
pub fn chunk_data(data: &[u8]) -> (r: Vec<ChunkBoundary>)
    ensures
        r@.map_values(|b: ChunkBoundary| boundary_view(b)) == chunks_from(data@, 0),
        tiles(data@.len() as int, 0, r@.map_values(|b: ChunkBoundary| boundary_view(b))),
{
    proof {
        lemma_chunks_tile(data@, 0);
    }
    let mut chunks: Vec<ChunkBoundary> = Vec::new();
    if data.len() == 0 {
        assert(chunks@.map_values(|b: ChunkBoundary| boundary_view(b)) =~= chunks_from(data@, 0));
        return chunks;
    }
    let len = data.len();
    let mut pos: usize = 0;
    while pos < len
        invariant_except_break
            len == data@.len(),
            pos <= len,
            chunks@.map_values(|b: ChunkBoundary| boundary_view(b)) + chunks_from(data@, pos as int)
                == chunks_from(data@, 0),
        ensures
            chunks@.map_values(|b: ChunkBoundary| boundary_view(b)) == chunks_from(data@, 0),
        decreases len - pos,
    {
        let ghost old_chunks = chunks@.map_values(|b: ChunkBoundary| boundary_view(b));
        let end = if len - pos < MAX_CHUNK_SIZE { len } else { pos + MAX_CHUNK_SIZE };
        let chunk_start = pos;
        let step = if MIN_CHUNK_SIZE < len - pos { MIN_CHUNK_SIZE } else { len - pos };
        pos = pos + step;
        if pos >= len {
            chunks.push(ChunkBoundary { offset: chunk_start, length: len - chunk_start });
            proof {
                assert(chunks_from(data@, chunk_start as int) == seq![(chunk_start as int, len - chunk_start)]);
                assert(chunks@.map_values(|b: ChunkBoundary| boundary_view(b)) =~= old_chunks + seq![(chunk_start as int, len - chunk_start)]);
            }
            break;
        }
        let p1 = pos;
        let mut hash: u64 = 0;
        loop
            invariant_except_break
                p1 <= pos < end <= len,
                len == data@.len(),
                cut_point(data@, pos as int, end as int, hash) == cut_point(data@, p1 as int, end as int, 0),
            ensures
                p1 < pos <= end,
                pos == cut_point(data@, p1 as int, end as int, 0),
            decreases end - pos,
        {
            hash = (hash << 1u64).wrapping_add(GEAR_TABLE[data[pos] as usize]);
            pos = pos + 1;
            if (hash & MASK) == 0 || pos >= end {
                break;
            }
        }
        chunks.push(ChunkBoundary { offset: chunk_start, length: pos - chunk_start });
        proof {
            let c = pos as int;
            assert(chunks_from(data@, chunk_start as int) == seq![(chunk_start as int, c - chunk_start)] + chunks_from(data@, c));
            assert(chunks@.map_values(|b: ChunkBoundary| boundary_view(b)) =~= old_chunks + seq![(chunk_start as int, c - chunk_start)]);
            assert(old_chunks + seq![(chunk_start as int, c - chunk_start)] + chunks_from(data@, c)
                =~= old_chunks + (seq![(chunk_start as int, c - chunk_start)] + chunks_from(data@, c)));
        }
    }
    chunks
}


// ---- Manifests ----

/// A chunk of an object: its hash, where it starts and how long it is.
#[derive(Debug, Clone, Copy, PartialEq, Eq)]
pub struct ChunkRef {
    pub hash: crate::storage::content::Hash,
    pub offset: u64,
    pub length: u32,
}

/// How an object is made of chunks.
#[derive(Debug, Clone, PartialEq, Eq)]
pub struct ChunkManifest {
    /// Format version (1).
    pub version: u32,
    /// Size of the object in bytes.
    pub total_size: u64,
    /// Average chunk size the chunker aims at.
    pub chunk_size_avg: u32,
    /// The chunks, in order.
    pub chunks: Vec<ChunkRef>,
    /// Merkle root of the chunk hashes.
    pub merkle_root: crate::storage::content::Hash,
}

/// The bytes of a chunk of `data`.
pub open spec fn chunk_bytes(data: Seq<u8>, c: (int, int)) -> Seq<u8> {
    data.subrange(c.0, c.0 + c.1)
}

/// The hashes of chunk references.
pub open spec fn ref_hashes(refs: Seq<ChunkRef>) -> Seq<Seq<u8>> {
    refs.map_values(|r: ChunkRef| r.hash@)
}

/// `m` is the manifest of `data`: its chunks are the content-defined chunks
/// of the data with their BLAKE3 hashes, and its root is their Merkle root.
pub open spec fn manifest_of(m: ChunkManifest, data: Seq<u8>) -> bool {
    let cs = chunks_from(data, 0);
    &&& m.version == 1
    &&& m.total_size == data.len()
    &&& m.chunk_size_avg == AVG_CHUNK_SIZE
    &&& m.chunks@.len() == cs.len()
    &&& forall|i: int| 0 <= i < cs.len() ==> {
        &&& (#[trigger] m.chunks@[i]).offset == cs[i].0
        &&& m.chunks@[i].length == cs[i].1
        &&& m.chunks@[i].hash@ == blake3_digest(chunk_bytes(data, cs[i]))
    }
    &&& m.merkle_root@ == merkle_root_spec(ref_hashes(m.chunks@))
}

/// Append bytes to a vector.
fn append_bytes(out: &mut Vec<u8>, bytes: &[u8])
    ensures
        final(out)@ == old(out)@ + bytes@,
{
    let mut i: usize = 0;
    while i < bytes.len()
        invariant
            i <= bytes@.len(),
            out@ == old(out)@ + bytes@.take(i as int),
        decreases bytes@.len() - i,
    {
        out.push(bytes[i]);
        i = i + 1;
        assert(out@ =~= old(out)@ + bytes@.take(i as int));
    }
    assert(bytes@.take(i as int) =~= bytes@);
}

/// The manifest of an object: chunk it, hash each chunk, and take the
/// Merkle root of the hashes.
pub fn build_manifest(data: &[u8]) -> (m: ChunkManifest)
    ensures
        manifest_of(m, data@),
{
    let bounds = chunk_data(data);
    let ghost cs = chunks_from(data@, 0);
    proof {
        lemma_chunks_tile(data@, 0);
        assert forall|k: int| 0 <= k < bounds@.len() implies boundary_view(#[trigger] bounds@[k]) == cs[k] by {
            assert(bounds@.map_values(|b: ChunkBoundary| boundary_view(b))[k] == boundary_view(bounds@[k]));
        }
        assert forall|k: int| 0 <= k < cs.len() implies 0 <= (#[trigger] cs[k]).0 && 0 < cs[k].1 <= MAX_CHUNK_SIZE
            && cs[k].0 + cs[k].1 <= data@.len() by {
            lemma_tile_in_range(data@.len() as int, cs, k);
        }
    }
    let mut refs: Vec<ChunkRef> = Vec::new();
    let mut hashes: Vec<crate::storage::content::Hash> = Vec::new();
    let mut i: usize = 0;
    while i < bounds.len()
        invariant
            bounds@.len() == cs.len(),
            forall|k: int| 0 <= k < bounds@.len() ==> boundary_view(#[trigger] bounds@[k]) == cs[k],
            forall|k: int| 0 <= k < cs.len() ==> 0 <= (#[trigger] cs[k]).0 && 0 < cs[k].1 <= MAX_CHUNK_SIZE
                && cs[k].0 + cs[k].1 <= data@.len(),
            i <= bounds@.len(),
            refs@.len() == i,
            hashes@.len() == i,
            forall|k: int| 0 <= k < i ==> #[trigger] hashes@[k] == refs@[k].hash,
            forall|k: int| 0 <= k < i ==> {
                &&& (#[trigger] refs@[k]).offset == cs[k].0
                &&& refs@[k].length == cs[k].1
                &&& refs@[k].hash@ == blake3_digest(chunk_bytes(data@, cs[k]))
            },
        decreases bounds@.len() - i,
    {
        let b = bounds[i];
        assert(boundary_view(bounds@[i as int]) == cs[i as int]);
        assert(cs[i as int].0 + cs[i as int].1 <= data@.len());
        let n = data.len();
        assert(b.offset + b.length <= n);
        let piece = vstd::slice::slice_subrange(data, b.offset, b.offset + b.length);
        let h = blake3_hash(piece);
        refs.push(ChunkRef { hash: h, offset: b.offset as u64, length: b.length as u32 });
        hashes.push(h);
        i = i + 1;
    }
    let root = compute_merkle_root(hashes.as_slice());
    assert(hash_views(hashes@) =~= ref_hashes(refs@));
    ChunkManifest {
        version: 1,
        total_size: data.len() as u64,
        chunk_size_avg: AVG_CHUNK_SIZE as u32,
        chunks: refs,
        merkle_root: root,
    }
}

/// Each tile lies within the data and fits the chunk-size bounds.
pub proof fn lemma_tile_in_range(data_len: int, cs: Seq<(int, int)>, i: int)
    requires
        tiles(data_len, 0, cs),
        0 <= i < cs.len(),
    ensures
        0 <= cs[i].0,
        0 < cs[i].1 <= MAX_CHUNK_SIZE,
        cs[i].0 + cs[i].1 <= data_len,
    decreases cs.len() - i,
{
    if i == cs.len() - 1 {
        lemma_tile_start(data_len, cs, i);
    } else {
        lemma_tile_in_range(data_len, cs, i + 1);
        assert(cs[i + 1].0 == cs[i].0 + cs[i].1);
        lemma_tile_start(data_len, cs, i);
    }
}

/// Every tile starts at or after 0.
proof fn lemma_tile_start(data_len: int, cs: Seq<(int, int)>, i: int)
    requires
        tiles(data_len, 0, cs),
        0 <= i < cs.len(),
    ensures
        0 <= cs[i].0,
    decreases i,
{
    if i > 0 {
        lemma_tile_start(data_len, cs, i - 1);
        assert(cs[i].0 == cs[i - 1].0 + cs[i - 1].1);
    }
}


// ---- The chunk store's layout ----

/// Chunks on disk, under a root directory.
pub struct ChunkStore {
    root: String,
}

/// Where a chunk with this hash lives under `root`:
/// `chunks/<first two hex digits>/<next two>/<all 64>`.
pub open spec fn chunk_path_spec(root: Seq<char>, hash: Seq<u8>) -> Seq<char> {
    let hex = hex_text(hash);
    path_join_spec(
        path_join_spec(path_join_spec(path_join_spec(root, "chunks"@), hex.subrange(0, 2)), hex.subrange(2, 4)),
        hex,
    )
}

impl ChunkStore {
    /// The root directory.
    pub closed spec fn root_dir(&self) -> Seq<char> {
        self.root@
    }

    /// A store rooted at `root`.
    pub fn new(root: String) -> (r: ChunkStore)
        ensures
            r.root_dir() == root@,
    {
        ChunkStore { root }
    }

    /// The file of the chunk with this hash.
    pub fn chunk_path(&self, hash: &crate::storage::content::Hash) -> (r: String)
        ensures
            r@ == chunk_path_spec(self.root_dir(), hash@),
    {
        let hex = hash_to_hex(hash);
        let h = hex.as_str();
        let p1 = path_join(self.root.as_str(), "chunks");
        let p2 = path_join(p1.as_str(), h.substring_char(0, 2));
        let p3 = path_join(p2.as_str(), h.substring_char(2, 4));
        path_join(p3.as_str(), h)
    }
}

// ---- Reading objects back ----

/// A chunk read back is good: it was found, hashes to the chunk's hash and
/// has the chunk's length.
pub open spec fn read_good(r: ChunkRef, read: Result<Vec<u8>, LatticeError>) -> bool {
    match read {
        Ok(d) => blake3_digest(d@) == r.hash@ && d@.len() == r.length,
        Err(_) => false,
    }
}

/// `e` is the error a bad read gives: the read's own error, a corrupted
/// chunk (with both hashes in hex), or a length mismatch.
pub open spec fn read_failure(r: ChunkRef, read: Result<Vec<u8>, LatticeError>, e: LatticeError) -> bool {
    match read {
        Err(x) => e == x,
        Ok(d) => if blake3_digest(d@) != r.hash@ {
            e matches LatticeError::CorruptedChunk { expected, computed } && expected@ == hex_text(r.hash@)
                && computed@ == hex_text(blake3_digest(d@))
        } else {
            d@.len() != r.length && e is LengthMismatch
        },
    }
}

/// The bytes of the reads that came back.
pub open spec fn read_bytes(reads: Seq<Result<Vec<u8>, LatticeError>>) -> Seq<Seq<u8>> {
    reads.map_values(|x: Result<Vec<u8>, LatticeError>| match x {
        Ok(d) => d@,
        Err(_) => Seq::<u8>::empty(),
    })
}

/// The byte strings one after the other.
pub open spec fn concat_all(ps: Seq<Seq<u8>>) -> Seq<u8>
    decreases ps.len(),
{
    if ps.len() == 0 {
        seq![]
    } else {
        concat_all(ps.drop_last()) + ps.last()
    }
}

/// Every read is good.
pub open spec fn all_reads_good(m: ChunkManifest, reads: Seq<Result<Vec<u8>, LatticeError>>) -> bool {
    forall|i: int| 0 <= i < reads.len() ==> read_good(#[trigger] m.chunks@[i], reads[i])
}

/// Whether two hashes are equal.
pub(crate) fn hashes_equal(a: &crate::storage::content::Hash, b: &crate::storage::content::Hash) -> (r: bool)
    ensures
        r == (a@ == b@),
{
    let mut i: usize = 0;
    while i < 32
        invariant
            i <= 32,
            forall|k: int| 0 <= k < i ==> a@[k] == b@[k],
        decreases 32 - i,
    {
        if a[i] != b[i] {
            return false;
        }
        i = i + 1;
    }
    assert(a@ =~= b@);
    true
}

/// Check one chunk read back against its reference: the read's error, a
/// corrupted chunk, or a length mismatch; else the bytes.
pub fn verify_chunk(r: &ChunkRef, read: Result<Vec<u8>, LatticeError>) -> (out: Result<Vec<u8>, LatticeError>)
    ensures
        read_good(*r, read) ==> out == read,
        !read_good(*r, read) ==> (out matches Err(e) && read_failure(*r, read, e)),
{
    match read {
        Err(e) => Err(e),
        Ok(d) => {
            let computed = blake3_hash(d.as_slice());
            if !hashes_equal(&computed, &r.hash) {
                return Err(LatticeError::CorruptedChunk { expected: hash_to_hex(&r.hash), computed: hash_to_hex(&computed) });
            }
            if d.len() != r.length as usize {
                return Err(LatticeError::LengthMismatch);
            }
            Ok(d)
        },
    }
}

/// Assemble an object from its chunks read back in manifest order: each is
/// checked (found, hash, length), then the total size and the Merkle root.
pub fn assemble_object(manifest: &ChunkManifest, reads: Vec<Result<Vec<u8>, LatticeError>>) -> (r: Result<Vec<u8>, LatticeError>)
    requires
        reads@.len() == manifest.chunks@.len(),
    ensures
        match r {
            Ok(v) => all_reads_good(*manifest, reads@) && v@ == concat_all(read_bytes(reads@))
                && v@.len() == manifest.total_size
                && merkle_root_spec(ref_hashes(manifest.chunks@)) == manifest.merkle_root@,
            Err(e) => (exists|i: int| 0 <= i < reads@.len() && (forall|j: int| 0 <= j < i ==> read_good(#[trigger] manifest.chunks@[j], reads@[j]))
                && !read_good(manifest.chunks@[i], reads@[i]) && read_failure(manifest.chunks@[i], reads@[i], e))
                || (all_reads_good(*manifest, reads@) && concat_all(read_bytes(reads@)).len() != manifest.total_size
                    && e is LengthMismatch)
                || (all_reads_good(*manifest, reads@) && concat_all(read_bytes(reads@)).len() == manifest.total_size
                    && merkle_root_spec(ref_hashes(manifest.chunks@)) != manifest.merkle_root@ && e is MerkleRootMismatch),
        },
{
    let ghost orig = reads@;
    let n = reads.len();
    let mut pending = reads;
    let mut data: Vec<u8> = Vec::new();
    let mut i: usize = 0;
    while i < n
        invariant
            n == orig.len(),
            orig == reads@,
            n == manifest.chunks@.len(),
            pending@.len() == n,
            forall|k: int| i <= k < n ==> pending@[k] == orig[k],
            i <= n,
            forall|j: int| 0 <= j < i ==> read_good(#[trigger] manifest.chunks@[j], orig[j]),
            data@ == concat_all(read_bytes(orig).take(i as int)),
        decreases n - i,
    {
        let mut slot: Result<Vec<u8>, LatticeError> = Err(LatticeError::LengthMismatch);
        std::mem::swap(&mut slot, &mut pending[i]);
        assert(slot == orig[i as int]);
        match verify_chunk(&manifest.chunks[i], slot) {
            Err(e) => {
                proof {
                    assert(!read_good(manifest.chunks@[i as int], orig[i as int]));
                    assert(read_failure(manifest.chunks@[i as int], orig[i as int], e));
                    assert(orig == reads@);
                    assert(0 <= i < orig.len() && (forall|j: int| 0 <= j < i ==> read_good(#[trigger] manifest.chunks@[j], orig[j]))
                        && !read_good(manifest.chunks@[i as int], orig[i as int])
                        && read_failure(manifest.chunks@[i as int], orig[i as int], e));
                }
                return Err(e);
            },
            Ok(d) => {
                proof {
                    assert(read_bytes(orig).take(i + 1).drop_last() =~= read_bytes(orig).take(i as int));
                    assert(read_bytes(orig)[i as int] == d@);
                }
                append_bytes(&mut data, d.as_slice());
            },
        }
        i = i + 1;
    }
    assert(read_bytes(orig).take(n as int) =~= read_bytes(orig));
    if data.len() as u64 != manifest.total_size {
        return Err(LatticeError::LengthMismatch);
    }
    let mut hashes: Vec<crate::storage::content::Hash> = Vec::new();
    let mut k: usize = 0;
    while k < n
        invariant
            n == manifest.chunks@.len(),
            k <= n,
            hashes@.len() == k,
            forall|j: int| 0 <= j < k ==> #[trigger] hashes@[j] == manifest.chunks@[j].hash,
        decreases n - k,
    {
        hashes.push(manifest.chunks[k].hash);
        k = k + 1;
    }
    assert(hash_views(hashes@) =~= ref_hashes(manifest.chunks@));
    let root = compute_merkle_root(hashes.as_slice());
    if !hashes_equal(&root, &manifest.merkle_root) {
        return Err(LatticeError::MerkleRootMismatch);
    }
    Ok(data)
}


/// The end of the first `k` tiles.
pub open spec fn tiles_end(cs: Seq<(int, int)>, k: int) -> int {
    if k == 0 { 0 } else { cs[k - 1].0 + cs[k - 1].1 }
}

/// The first `k` tiles, one after the other, are the data up to their end.
proof fn lemma_concat_tiles(data: Seq<u8>, cs: Seq<(int, int)>, pieces: Seq<Seq<u8>>, k: int)
    requires
        tiles(data.len() as int, 0, cs),
        pieces.len() == cs.len(),
        forall|i: int| 0 <= i < cs.len() ==> #[trigger] pieces[i] == chunk_bytes(data, cs[i]),
        0 <= k <= cs.len(),
    ensures
        concat_all(pieces.take(k)) == data.subrange(0, tiles_end(cs, k)),
    decreases k,
{
    if k > 0 {
        lemma_concat_tiles(data, cs, pieces, k - 1);
        lemma_tile_in_range(data.len() as int, cs, k - 1);
        assert(pieces.take(k).drop_last() =~= pieces.take(k - 1));
        if k > 1 {
            assert(cs[k - 1].0 == cs[k - 2].0 + cs[k - 2].1);
        } else {
            assert(cs[0].0 == 0);
        }
        assert(data.subrange(0, tiles_end(cs, k - 1)) + chunk_bytes(data, cs[k - 1])
            =~= data.subrange(0, tiles_end(cs, k)));
    }
}

/// What is stored reads back: when each chunk of the manifest of `data`
/// comes back as exactly its bytes, every check in `assemble_object` passes
/// and the assembled bytes are `data`.
pub proof fn lemma_store_retrieve(data: Seq<u8>, m: ChunkManifest, reads: Seq<Result<Vec<u8>, LatticeError>>)
    requires
        manifest_of(m, data),
        reads.len() == m.chunks@.len(),
        forall|i: int| 0 <= i < reads.len() ==> (#[trigger] reads[i] matches Ok(d)
            && d@ == chunk_bytes(data, chunks_from(data, 0)[i])),
    ensures
        all_reads_good(m, reads),
        concat_all(read_bytes(reads)) == data,
        concat_all(read_bytes(reads)).len() == m.total_size,
        merkle_root_spec(ref_hashes(m.chunks@)) == m.merkle_root@,
{
    let cs = chunks_from(data, 0);
    lemma_chunks_tile(data, 0);
    let pieces = read_bytes(reads);
    assert forall|i: int| 0 <= i < reads.len() implies read_good(#[trigger] m.chunks@[i], reads[i]) by {
        lemma_tile_in_range(data.len() as int, cs, i);
        assert(m.chunks@[i].hash@ == blake3_digest(chunk_bytes(data, cs[i])));
    }
    assert forall|i: int| 0 <= i < cs.len() implies #[trigger] pieces[i] == chunk_bytes(data, cs[i]) by {
        assert(reads[i] matches Ok(d) && d@ == chunk_bytes(data, cs[i]));
    }
    lemma_concat_tiles(data, cs, pieces, cs.len() as int);
    assert(pieces.take(cs.len() as int) =~= pieces);
    if cs.len() > 0 {
        assert(tiles_end(cs, cs.len() as int) == data.len());
    } else {
        assert(data.len() == 0);
    }
    assert(data.subrange(0, data.len() as int) =~= data);
}

} // verus!
