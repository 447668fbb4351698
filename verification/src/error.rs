//! The error type of the library.

use vstd::prelude::*;

verus! {

/// What went wrong in a library operation.
#[derive(Debug, Clone, PartialEq)]
pub enum LatticeError {
    /// A chunk is not in the store.
    ChunkNotFound { hash: String },
    /// A chunk's content does not hash to its address.
    CorruptedChunk { expected: String, computed: String },
    /// Written data does not match the hash it was stored under.
    HashMismatch,
    /// Storing the data would exceed the storage quota.
    QuotaExceeded { current_bytes: u64, max_bytes: u64 },
    /// No object with this identifier.
    ObjectNotFound { id: String },
    /// No version with this identifier.
    VersionNotFound { id: String },
    /// A version would be its own ancestor.
    CyclicVersion,
    /// A lifecycle transition that is not allowed.
    InvalidStateTransition { from: String, to: String },
    /// A sealed object cannot be updated.
    ObjectSealed { id: String },
    /// No manifest with this hash.
    ManifestNotFound { hash: String },
    /// The Merkle root of the chunks does not match the manifest.
    MerkleRootMismatch,
    /// A chunk or object has a different length than recorded.
    LengthMismatch,
    /// The metadata database failed (its message).
    Database(String),
    /// An I/O operation failed (its message).
    Io(String),
    /// Malformed data.
    Serialization(String),
    /// Malformed hexadecimal text.
    HexDecode(HexError),
    /// No identity with this name.
    IdentityNotFound { name: String },
    /// The key store failed.
    Keyring(String),
    /// Encryption failed.
    Encryption(String),
    /// Decryption failed.
    Decryption(String),
    /// A signature does not verify.
    InvalidSignature,
    /// A capability has expired.
    CapabilityExpired,
    /// A capability was revoked.
    CapabilityRevoked,
    /// A capability is not valid yet.
    CapabilityNotYetValid,
    /// No capability with this content identifier.
    CapabilityNotFound { cid: String },
    /// No revocation for this content identifier.
    RevocationNotFound { cid: String },
    /// A delegation would raise a permission.
    InvalidAttenuation { from: String, to: String },
    /// A capability's proof chain is not valid.
    InvalidProofChain(String),
    /// A revocation's signature does not verify.
    InvalidRevocationSignature,
    /// A permission is missing for an object.
    Unauthorized { permission: String, object: String },
    /// A query could not be lexed or parsed.
    ParseError { position: usize, message: String },
    /// A query ran too long.
    QueryTimeout { seconds: u64 },
    /// A traversal went deeper than allowed.
    TraversalDepthExceeded { max: usize },
    /// An unknown name where a permission, message type or predicate was expected.
    InvalidPredicate(String),
    /// No view with this name.
    ViewNotFound { name: String },
    /// A view's query cannot be formed.
    InvalidViewQuery(String),
    /// A policy forbids the operation.
    PolicyViolation { reason: String },
    /// Too many operations; retry after this many seconds.
    RateLimited { retry_after_secs: u64 },
}

/// Why hexadecimal text could not be decoded.
#[derive(Debug, Clone, Copy, PartialEq, Eq)]
pub enum HexError {
    /// A character that is not a hex digit, and where it is.
    InvalidHexCharacter { c: char, index: usize },
    /// An odd number of digits.
    OddLength,
    /// The decoded length does not fit the target.
    InvalidStringLength,
}

} // verus!
