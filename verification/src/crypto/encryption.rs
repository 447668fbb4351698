//! AES-256-GCM encryption of objects, one key per object.

use vstd::prelude::*;
use crate::error::LatticeError;
use crate::text::string_of;
use aes_gcm::aead::{Aead, KeyInit};

verus! {

/// AES-256 key size in bytes.
pub const KEY_SIZE: usize = 32;

/// AES-GCM nonce size in bytes.
pub const NONCE_SIZE: usize = 12;

/// AES-GCM authentication tag size in bytes.
pub const TAG_SIZE: usize = 16;

/// The longest plaintext AES-GCM encrypts, in bytes (2^36).
pub const MAX_PLAINTEXT: u64 = 68_719_476_736;

/// The ciphertext AES-256-GCM produces for a key, a nonce and a plaintext
/// (with no associated data): the encrypted bytes followed by the tag.
pub uninterp spec fn aes256gcm_seal(key: Seq<u8>, nonce: Seq<u8>, plaintext: Seq<u8>) -> Seq<u8>;

/// What AES-256-GCM decryption yields for a key, a nonce and a ciphertext:
/// the plaintext, or `None` when the tag does not authenticate.
pub uninterp spec fn aes256gcm_open(key: Seq<u8>, nonce: Seq<u8>, ciphertext: Seq<u8>) -> Option<Seq<u8>>;

/// `Aes256Gcm::new_from_slice(key)` then `Aead::encrypt(nonce, plaintext)`.
/// Claimed, as the crate's source shows: it succeeds exactly when the
/// plaintext is at most 2^36 bytes; the result is the named ciphertext, 16
/// bytes longer than the plaintext, and decrypting it with the same key and
/// nonce gives the plaintext back.
#[verifier::external_body]
pub(crate) fn aes_seal(key: &[u8; 32], nonce: &[u8; 12], plaintext: &[u8]) -> (r: Option<Vec<u8>>)
    ensures
        match r {
            Some(c) => plaintext@.len() <= MAX_PLAINTEXT && c@ == aes256gcm_seal(key@, nonce@, plaintext@)
                && c@.len() == plaintext@.len() + TAG_SIZE && aes256gcm_open(key@, nonce@, c@) == Some(plaintext@),
            None => plaintext@.len() > MAX_PLAINTEXT,
        },
{
    match aes_gcm::Aes256Gcm::new_from_slice(key) {
        Ok(cipher) => cipher.encrypt(aes_gcm::Nonce::from_slice(nonce), plaintext).ok(),
        Err(_) => None,
    }
}

/// `Aes256Gcm::new_from_slice(key)` then `Aead::decrypt(nonce, ciphertext)`.
/// Claimed: the result is the named one.
#[verifier::external_body]
pub(crate) fn aes_open(key: &[u8; 32], nonce: &[u8; 12], ciphertext: &[u8]) -> (r: Option<Vec<u8>>)
    ensures
        match r {
            Some(p) => aes256gcm_open(key@, nonce@, ciphertext@) == Some(p@),
            None => aes256gcm_open(key@, nonce@, ciphertext@) is None,
        },
{
    match aes_gcm::Aes256Gcm::new_from_slice(key) {
        Ok(cipher) => cipher.decrypt(aes_gcm::Nonce::from_slice(nonce), ciphertext).ok(),
        Err(_) => None,
    }
}

/// `rand::thread_rng().fill_bytes(buf)`: random bytes. Claimed only that the
/// length stays.
#[verifier::external_body]
pub(crate) fn fill_random(buf: &mut [u8])
    ensures
        final(buf)@.len() == old(buf)@.len(),
{
    rand::RngCore::fill_bytes(&mut rand::thread_rng(), buf)
}

/// A per-object AES-256 key.
#[derive(Clone)]
pub struct ObjectKey(pub [u8; 32]);

/// Encrypted data: the nonce and the ciphertext with its tag.
#[derive(Debug, Clone, PartialEq, Eq)]
pub struct EncryptedData {
    /// AES-GCM nonce.
    pub nonce: [u8; 12],
    /// Ciphertext followed by the authentication tag.
    pub ciphertext: Vec<u8>,
}

impl ObjectKey {
    /// A fresh random key.
    pub fn generate() -> (r: ObjectKey) {
        let mut key = [0u8; 32];
        fill_random(&mut key);
        ObjectKey(key)
    }

    /// The key with these bytes.
    pub fn from_bytes(bytes: [u8; 32]) -> (r: ObjectKey)
        ensures
            r.0@ == bytes@,
    {
        ObjectKey(bytes)
    }

    /// The raw key bytes (sensitive material).
    pub fn as_bytes(&self) -> (r: &[u8; 32])
        ensures
            r@ == self.0@,
    {
        &self.0
    }

    /// Encrypt under a fresh random nonce. Fails only for a plaintext longer
    /// than 2^36 bytes.
    pub fn encrypt(&self, plaintext: &[u8]) -> (r: Result<EncryptedData, LatticeError>)
        ensures
            plaintext@.len() <= MAX_PLAINTEXT <==> r is Ok,
            r matches Ok(e) ==> e.ciphertext@ == aes256gcm_seal(self.0@, e.nonce@, plaintext@)
                && e.ciphertext@.len() == plaintext@.len() + TAG_SIZE
                && aes256gcm_open(self.0@, e.nonce@, e.ciphertext@) == Some(plaintext@),
            r matches Err(e) ==> e is Encryption,
    {
        let mut nonce = [0u8; 12];
        fill_random(&mut nonce);
        self.encrypt_with_nonce(plaintext, nonce)
    }

    /// Encrypt under a given nonce (`encrypt` draws it at random): the
    /// result carries that nonce and the AES-256-GCM ciphertext, 16 bytes
    /// longer than the plaintext. Fails only for a plaintext longer than
    /// 2^36 bytes.
    pub fn encrypt_with_nonce(&self, plaintext: &[u8], nonce: [u8; 12]) -> (r: Result<EncryptedData, LatticeError>)
        ensures
            plaintext@.len() <= MAX_PLAINTEXT <==> r is Ok,
            r matches Ok(e) ==> e.nonce@ == nonce@ && e.ciphertext@ == aes256gcm_seal(self.0@, nonce@, plaintext@)
                && e.ciphertext@.len() == plaintext@.len() + TAG_SIZE
                && aes256gcm_open(self.0@, e.nonce@, e.ciphertext@) == Some(plaintext@),
            r matches Err(e) ==> e is Encryption,
    {
        match aes_seal(&self.0, &nonce, plaintext) {
            Some(ciphertext) => Ok(EncryptedData { nonce, ciphertext }),
            None => Err(LatticeError::Encryption(string_of("Encryption failed"))),
        }
    }

    /// Decrypt and authenticate; a wrong key or altered data fails.
    pub fn decrypt(&self, encrypted: &EncryptedData) -> (r: Result<Vec<u8>, LatticeError>)
        ensures
            match aes256gcm_open(self.0@, encrypted.nonce@, encrypted.ciphertext@) {
                Some(p) => r matches Ok(v) && v@ == p,
                None => r matches Err(e) && e is Decryption,
            },
    {
        match aes_open(&self.0, &encrypted.nonce, encrypted.ciphertext.as_slice()) {
            Some(p) => Ok(p),
            None => Err(LatticeError::Decryption(string_of("Decryption failed"))),
        }
    }
}

/// The byte form of encrypted data: nonce, then ciphertext.
pub open spec fn encrypted_bytes(nonce: Seq<u8>, ciphertext: Seq<u8>) -> Seq<u8> {
    nonce + ciphertext
}

impl EncryptedData {
    /// Total size in bytes: nonce and ciphertext.
    pub fn size(&self) -> (r: usize)
        requires
            self.ciphertext@.len() + NONCE_SIZE <= usize::MAX,
        ensures
            r == NONCE_SIZE + self.ciphertext@.len(),
    {
        NONCE_SIZE + self.ciphertext.len()
    }

    /// The bytes `nonce || ciphertext`.
    pub fn to_bytes(&self) -> (r: Vec<u8>)
        ensures
            r@ == encrypted_bytes(self.nonce@, self.ciphertext@),
    {
        let mut bytes: Vec<u8> = Vec::new();
        let mut i: usize = 0;
        while i < NONCE_SIZE
            invariant
                i <= NONCE_SIZE,
                bytes@ == self.nonce@.take(i as int),
            decreases NONCE_SIZE - i,
        {
            bytes.push(self.nonce[i]);
            i = i + 1;
            assert(bytes@ =~= self.nonce@.take(i as int));
        }
        let mut j: usize = 0;
        while j < self.ciphertext.len()
            invariant
                j <= self.ciphertext@.len(),
                bytes@ == self.nonce@ + self.ciphertext@.take(j as int),
            decreases self.ciphertext@.len() - j,
        {
            bytes.push(self.ciphertext[j]);
            j = j + 1;
            assert(bytes@ =~= self.nonce@ + self.ciphertext@.take(j as int));
        }
        assert(self.ciphertext@.take(j as int) =~= self.ciphertext@);
        bytes
    }

    /// Split `nonce || ciphertext`; fewer than 12 bytes is an error.
    pub fn from_bytes(bytes: &[u8]) -> (r: Result<EncryptedData, LatticeError>)
        ensures
            bytes@.len() >= NONCE_SIZE <==> r is Ok,
            r matches Ok(e) ==> e.nonce@ == bytes@.take(NONCE_SIZE as int)
                && e.ciphertext@ == bytes@.skip(NONCE_SIZE as int),
            r matches Err(e) ==> e is Decryption,
    {
        if bytes.len() < NONCE_SIZE {
            return Err(LatticeError::Decryption(string_of("Encrypted data too short")));
        }
        let mut nonce = [0u8; 12];
        let mut i: usize = 0;
        while i < NONCE_SIZE
            invariant
                i <= NONCE_SIZE,
                bytes@.len() >= NONCE_SIZE,
                forall|k: int| 0 <= k < i ==> nonce@[k] == bytes@[k],
            decreases NONCE_SIZE - i,
        {
            nonce[i] = bytes[i];
            i = i + 1;
        }
        assert(nonce@ =~= bytes@.take(NONCE_SIZE as int));
        let mut ciphertext: Vec<u8> = Vec::new();
        let mut j: usize = NONCE_SIZE;
        while j < bytes.len()
            invariant
                NONCE_SIZE <= j <= bytes@.len(),
                ciphertext@ == bytes@.subrange(NONCE_SIZE as int, j as int),
            decreases bytes@.len() - j,
        {
            ciphertext.push(bytes[j]);
            j = j + 1;
            assert(ciphertext@ =~= bytes@.subrange(NONCE_SIZE as int, j as int));
        }
        assert(ciphertext@ =~= bytes@.skip(NONCE_SIZE as int));
        Ok(EncryptedData { nonce, ciphertext })
    }
}

/// Reading the byte form back gives the nonce and ciphertext that were
/// written.
pub proof fn lemma_encrypted_bytes_roundtrip(nonce: Seq<u8>, ciphertext: Seq<u8>)
    requires
        nonce.len() == NONCE_SIZE,
    ensures
        encrypted_bytes(nonce, ciphertext).len() >= NONCE_SIZE,
        encrypted_bytes(nonce, ciphertext).take(NONCE_SIZE as int) == nonce,
        encrypted_bytes(nonce, ciphertext).skip(NONCE_SIZE as int) == ciphertext,
{
    assert(encrypted_bytes(nonce, ciphertext).take(NONCE_SIZE as int) =~= nonce);
    assert(encrypted_bytes(nonce, ciphertext).skip(NONCE_SIZE as int) =~= ciphertext);
}

/// Encrypt a chunk with a key.
pub fn encrypt_chunk(key: &ObjectKey, chunk: &[u8]) -> (r: Result<EncryptedData, LatticeError>)
    ensures
        chunk@.len() <= MAX_PLAINTEXT <==> r is Ok,
        r matches Ok(e) ==> e.ciphertext@ == aes256gcm_seal(key.0@, e.nonce@, chunk@)
            && e.ciphertext@.len() == chunk@.len() + TAG_SIZE
            && aes256gcm_open(key.0@, e.nonce@, e.ciphertext@) == Some(chunk@),
        r matches Err(e) ==> e is Encryption,
{
    key.encrypt(chunk)
}

/// Decrypt a chunk with a key.
pub fn decrypt_chunk(key: &ObjectKey, encrypted: &EncryptedData) -> (r: Result<Vec<u8>, LatticeError>)
    ensures
        match aes256gcm_open(key.0@, encrypted.nonce@, encrypted.ciphertext@) {
            Some(p) => r matches Ok(v) && v@ == p,
            None => r matches Err(e) && e is Decryption,
        },
{
    key.decrypt(encrypted)
}

} // verus!
