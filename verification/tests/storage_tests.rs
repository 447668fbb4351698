use latticefs::error::{HexError, LatticeError};
use latticefs::storage::chunks::{
    assemble_object, build_manifest, chunk_data, verify_chunk, ChunkRef, ChunkStore, AVG_CHUNK_SIZE, MAX_CHUNK_SIZE,
    MIN_CHUNK_SIZE,
};
use latticefs::storage::content::{compute_hash, compute_merkle_root, hash_to_hex, hex_to_hash};

#[test]
fn test_chunking_deterministic() {
    let data = b"Hello, LatticeFS! ".repeat(1000);
    let chunks1 = chunk_data(&data);
    let chunks2 = chunk_data(&data);
    assert_eq!(chunks1, chunks2);
}

#[test]
fn test_chunk_boundaries() {
    let data = vec![0u8; 100_000];
    let chunks = chunk_data(&data);
    assert!(chunks.len() > 1);
    for (i, chunk) in chunks.iter().enumerate() {
        let is_last = i == chunks.len() - 1;
        if !is_last {
            assert!(chunk.length >= MIN_CHUNK_SIZE);
        }
        assert!(chunk.length <= MAX_CHUNK_SIZE);
    }
    let total: usize = chunks.iter().map(|c| c.length).sum();
    assert_eq!(total, data.len());
}

#[test]
fn test_chunking_empty() {
    let data = b"";
    let chunks = chunk_data(data);
    assert_eq!(chunks.len(), 0);
}

#[test]
fn test_chunking_small() {
    let data = b"small";
    let chunks = chunk_data(data);
    assert_eq!(chunks.len(), 1);
    assert_eq!(chunks[0].offset, 0);
    assert_eq!(chunks[0].length, 5);
}

#[test]
fn test_hash_roundtrip() {
    let data = b"test data";
    let hash = compute_hash(data);
    let hex = hash_to_hex(&hash);
    let decoded = hex_to_hash(&hex).unwrap();
    assert_eq!(hash, decoded);
}

#[test]
fn test_hash_deterministic() {
    let data = b"Hello, NeuralFS!";
    let hash1 = compute_hash(data);
    let hash2 = compute_hash(data);
    assert_eq!(hash1, hash2);
}

#[test]
fn test_merkle_root_empty() {
    let root = compute_merkle_root(&[]);
    let expected: [u8; 32] = blake3::hash(b"").into();
    assert_eq!(root, expected);
}

#[test]
fn test_merkle_root_single() {
    let hash = compute_hash(b"test");
    let root = compute_merkle_root(&[hash]);
    assert_eq!(root, hash);
}

#[test]
fn test_merkle_root_deterministic() {
    let hashes = vec![compute_hash(b"chunk1"), compute_hash(b"chunk2"), compute_hash(b"chunk3")];
    let root1 = compute_merkle_root(&hashes);
    let root2 = compute_merkle_root(&hashes);
    assert_eq!(root1, root2);
}

#[test]
fn merkle_root_pairs_and_duplicates_the_odd_one() {
    let a = compute_hash(b"a");
    let b = compute_hash(b"b");
    let c = compute_hash(b"c");
    let pair = |x: &[u8; 32], y: &[u8; 32]| -> [u8; 32] {
        let mut v = x.to_vec();
        v.extend_from_slice(y);
        blake3::hash(&v).into()
    };
    assert_eq!(compute_merkle_root(&[a, b]), pair(&a, &b));
    let ab = pair(&a, &b);
    let cc = pair(&c, &c);
    assert_eq!(compute_merkle_root(&[a, b, c]), pair(&ab, &cc));
}

#[test]
fn hex_encoding_and_errors() {
    let hash = [0xabu8; 32];
    assert_eq!(hash_to_hex(&hash), "ab".repeat(32));
    assert_eq!(hex_to_hash(&"AB".repeat(32)).unwrap(), hash);
    match hex_to_hash("abc") {
        Err(LatticeError::HexDecode(HexError::OddLength)) => {}
        other => panic!("unexpected {:?}", other),
    }
    match hex_to_hash("zz") {
        Err(LatticeError::HexDecode(HexError::InvalidHexCharacter { c, index })) => {
            assert_eq!(c, 'z');
            assert_eq!(index, 0);
        }
        other => panic!("unexpected {:?}", other),
    }
    match hex_to_hash("abcd") {
        Err(LatticeError::Serialization(_)) => {}
        other => panic!("unexpected {:?}", other),
    }
}

#[test]
fn chunk_store_layout() {
    let store = ChunkStore::new("/data/lfs".to_string());
    let hash = [0x12u8; 32];
    let hex = "12".repeat(32);
    assert_eq!(store.chunk_path(&hash), format!("/data/lfs/chunks/12/12/{}", hex));
    let store = ChunkStore::new("root/".to_string());
    assert_eq!(store.chunk_path(&hash), format!("root/chunks/12/12/{}", hex));
}

#[test]
fn manifest_then_assembly_gives_the_data_back() {
    let data: Vec<u8> = (0..200_000u32).map(|i| (i.wrapping_mul(2654435761) >> 13) as u8).collect();
    let manifest = build_manifest(&data);
    assert_eq!(manifest.version, 1);
    assert_eq!(manifest.total_size, data.len() as u64);
    assert_eq!(manifest.chunk_size_avg as usize, AVG_CHUNK_SIZE);
    let bounds = chunk_data(&data);
    assert_eq!(manifest.chunks.len(), bounds.len());
    let reads: Vec<Result<Vec<u8>, LatticeError>> = manifest
        .chunks
        .iter()
        .map(|c| Ok(data[c.offset as usize..c.offset as usize + c.length as usize].to_vec()))
        .collect();
    let back = assemble_object(&manifest, reads).unwrap();
    assert_eq!(back, data);
}

#[test]
fn assembly_reports_the_first_bad_chunk() {
    let data = vec![5u8; 70_000];
    let manifest = build_manifest(&data);
    assert!(manifest.chunks.len() >= 2);
    let mut reads: Vec<Result<Vec<u8>, LatticeError>> = manifest
        .chunks
        .iter()
        .map(|c| Ok(data[c.offset as usize..c.offset as usize + c.length as usize].to_vec()))
        .collect();
    reads[1] = Ok(vec![1, 2, 3]);
    match assemble_object(&manifest, reads) {
        Err(LatticeError::CorruptedChunk { expected, computed }) => {
            assert_eq!(expected, hash_to_hex(&manifest.chunks[1].hash));
            assert_eq!(computed, hash_to_hex(&compute_hash(&[1, 2, 3])));
        }
        other => panic!("unexpected {:?}", other.map(|v| v.len())),
    }
    let mut bad_root = manifest.clone();
    bad_root.merkle_root = [0u8; 32];
    let reads: Vec<Result<Vec<u8>, LatticeError>> = manifest
        .chunks
        .iter()
        .map(|c| Ok(data[c.offset as usize..c.offset as usize + c.length as usize].to_vec()))
        .collect();
    assert!(matches!(assemble_object(&bad_root, reads), Err(LatticeError::MerkleRootMismatch)));
}

#[test]
fn verify_chunk_checks_hash_and_length() {
    let data = b"chunk".to_vec();
    let r = ChunkRef { hash: compute_hash(&data), offset: 0, length: 5 };
    assert_eq!(verify_chunk(&r, Ok(data.clone())).unwrap(), data);
    let short = ChunkRef { hash: compute_hash(&data), offset: 0, length: 4 };
    assert!(matches!(verify_chunk(&short, Ok(data.clone())), Err(LatticeError::LengthMismatch)));
    assert!(matches!(verify_chunk(&r, Err(LatticeError::HashMismatch)), Err(LatticeError::HashMismatch)));
}
