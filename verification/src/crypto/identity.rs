//! Ed25519 identities, their signatures, and their DID:key names
//! (`did:key:z` followed by the base58btc text of the multicodec prefix and
//! the public key).

use vstd::prelude::*;
use ed25519_dalek::{Signer, Verifier};
use crate::error::LatticeError;
use crate::query::lexer::{decimal_chars, push_decimal};
use crate::text::{push_char, starts_with, string_of};

verus! {

// ---- Outside calls ----

/// What `bs58::encode(bytes).into_string()` yields.
pub uninterp spec fn base58_text(b: Seq<u8>) -> Seq<char>;

/// What `bs58::decode(text).into_vec()` yields: the bytes, or the text of
/// its error.
pub uninterp spec fn base58_decoded(s: Seq<char>) -> Result<Seq<u8>, Seq<char>>;

/// The public key of an Ed25519 secret key.
pub uninterp spec fn ed25519_public(secret: Seq<u8>) -> Seq<u8>;

/// The Ed25519 signature of a message under a secret key.
pub uninterp spec fn ed25519_signature(secret: Seq<u8>, msg: Seq<u8>) -> Seq<u8>;

/// Why 32 bytes are not an Ed25519 public key (the text of the error of
/// `VerifyingKey::from_bytes`), or `None` when they are one.
pub uninterp spec fn ed25519_key_problem(key: Seq<u8>) -> Option<Seq<char>>;

/// Whether a signature of a message verifies under a public key.
pub uninterp spec fn ed25519_verifies(key: Seq<u8>, msg: Seq<u8>, sig: Seq<u8>) -> bool;

/// `bs58::encode(bytes).into_string()`. Claimed: the result is the named
/// text, and `bs58::decode` reads it back as the bytes (the crate's encoder
/// and decoder are inverse over the same alphabet).
#[verifier::external_body]
fn base58_encode(bytes: &[u8]) -> (r: String)
    ensures
        r@ == base58_text(bytes@),
        base58_decoded(r@) is Ok && base58_decoded(r@)->Ok_0 == bytes@,
{
    bs58::encode(bytes).into_string()
}

/// `bs58::decode(text).into_vec()`, its error as text. Claimed: the result
/// is the named one.
#[verifier::external_body]
fn base58_decode(text: &str) -> (r: Result<Vec<u8>, String>)
    ensures
        match base58_decoded(text@) {
            Ok(b) => r matches Ok(v) && v@ == b,
            Err(m) => r matches Err(e) && e@ == m,
        },
{
    match bs58::decode(text).into_vec() {
        Ok(v) => Ok(v),
        Err(e) => Err(e.to_string()),
    }
}

/// `SigningKey::generate(&mut OsRng).to_bytes()`: a fresh random secret key.
/// Nothing is claimed of its value.
#[verifier::external_body]
fn fresh_secret() -> (r: [u8; 32]) {
    ed25519_dalek::SigningKey::generate(&mut rand::rngs::OsRng).to_bytes()
}

/// `SigningKey::from_bytes(secret).verifying_key().to_bytes()`. Claimed: the
/// named public key, which `VerifyingKey::from_bytes` accepts (it is the
/// encoding of a valid curve point).
#[verifier::external_body]
fn public_of(secret: &[u8; 32]) -> (r: [u8; 32])
    ensures
        r@ == ed25519_public(secret@),
        ed25519_key_problem(r@) is None,
{
    ed25519_dalek::SigningKey::from_bytes(secret).verifying_key().to_bytes()
}

/// `SigningKey::from_bytes(secret).sign(msg).to_bytes()`. Claimed: the named
/// signature, and it verifies under the secret's public key (Ed25519
/// signatures verify under the key that made them).
#[verifier::external_body]
fn sign_with(secret: &[u8; 32], msg: &[u8]) -> (r: [u8; 64])
    ensures
        r@ == ed25519_signature(secret@, msg@),
        ed25519_verifies(ed25519_public(secret@), msg@, r@),
{
    ed25519_dalek::SigningKey::from_bytes(secret).sign(msg).to_bytes()
}

/// `VerifyingKey::from_bytes(key)`, its error as text. Claimed: an error
/// exactly when the named problem exists, with that text.
#[verifier::external_body]
fn key_problem(key: &[u8; 32]) -> (r: Option<String>)
    ensures
        match ed25519_key_problem(key@) {
            None => r is None,
            Some(m) => r matches Some(e) && e@ == m,
        },
{
    match ed25519_dalek::VerifyingKey::from_bytes(key) {
        Ok(_) => None,
        Err(e) => Some(e.to_string()),
    }
}

/// `VerifyingKey::from_bytes(key)` then `verify(msg, &Signature::from_bytes(sig))`.
/// Claimed: true exactly when the key is accepted and the named check
/// passes.
#[verifier::external_body]
fn verify_with(key: &[u8; 32], msg: &[u8], sig: &[u8; 64]) -> (r: bool)
    ensures
        r == (ed25519_key_problem(key@) is None && ed25519_verifies(key@, msg@, sig@)),
{
    match ed25519_dalek::VerifyingKey::from_bytes(key) {
        Ok(k) => k.verify(msg, &ed25519_dalek::Signature::from_bytes(sig)).is_ok(),
        Err(_) => false,
    }
}

// ---- DID:key names ----

/// The multicodec prefix of an Ed25519 public key.
pub open spec fn ed25519_multicodec() -> Seq<u8> {
    seq![0xedu8, 0x01u8]
}

/// The DID:key name of a public key.
pub open spec fn did_text(key: Seq<u8>) -> Seq<char> {
    "did:key:z"@ + base58_text(ed25519_multicodec() + key)
}

/// The decimal text of a byte list as `Debug` prints it: `[a, b]`.
pub open spec fn byte_pair_text(a: u8, b: u8) -> Seq<char> {
    "["@ + decimal_chars(a as nat) + ", "@ + decimal_chars(b as nat) + "]"@
}

/// The refusal of a name without the `did:key:z` prefix, quoting the
/// prefix and the name in single quotes.
pub open spec fn did_format_error(did: Seq<char>) -> Seq<char> {
    "Invalid DID format: expected "@ + seq!['\u{27}'] + "did:key:z"@ + seq!['\u{27}'] + " prefix, got "@ + seq!['\u{27}'] + did
        + seq!['\u{27}']
}

/// The public key a DID:key name holds, or why it holds none: a missing
/// `did:key:z` prefix, text that is not base58btc, a length other than 34
/// bytes, another multicodec prefix, or bytes that are no Ed25519 key.
pub open spec fn did_key(did: Seq<char>) -> Result<Seq<u8>, Seq<char>> {
    if !"did:key:z"@.is_prefix_of(did) {
        Err(did_format_error(did))
    } else {
        match base58_decoded(did.skip(9)) {
            Err(m) => Err("Invalid base58btc in DID: "@ + m),
            Ok(b) => {
                if b.len() != 34 {
                    Err("Invalid DID length: expected 34 bytes, got "@ + decimal_chars(b.len()))
                } else if b.take(2) != ed25519_multicodec() {
                    Err("Invalid multicodec prefix: expected [237, 1], got "@ + byte_pair_text(b[0], b[1]))
                } else {
                    match ed25519_key_problem(b.skip(2)) {
                        Some(m) => Err("Invalid Ed25519 public key: "@ + m),
                        None => Ok(b.skip(2)),
                    }
                }
            },
        }
    }
}

/// An Ed25519 public key of another party.
#[derive(Debug, Clone, Copy)]
pub struct PublicKey(pub [u8; 32]);

/// The DID:key name of a public key.
pub fn did_from_public_key(public_key: &PublicKey) -> (r: String)
    ensures
        r@ == did_text(public_key.0@),
        ed25519_key_problem(public_key.0@) is None ==> did_key(r@) == Ok::<Seq<u8>, Seq<char>>(public_key.0@),
{
    let mut bytes: Vec<u8> = Vec::new();
    bytes.push(0xed);
    bytes.push(0x01);
    let mut i: usize = 0;
    while i < 32
        invariant
            i <= 32,
            bytes@ == ed25519_multicodec() + public_key.0@.take(i as int),
        decreases 32 - i,
    {
        bytes.push(public_key.0[i]);
        assert(bytes@ =~= ed25519_multicodec() + public_key.0@.take(i + 1));
        i = i + 1;
    }
    assert(public_key.0@.take(32) =~= public_key.0@);
    let encoded = base58_encode(bytes.as_slice());
    let mut out = string_of("did:key:z");
    out.append(encoded.as_str());
    proof {
        reveal_strlit("did:key:z");
        assert(out@.skip(9) =~= encoded@);
        assert("did:key:z"@.is_prefix_of(out@));
        assert(bytes@.take(2) =~= ed25519_multicodec());
        assert(bytes@.skip(2) =~= public_key.0@);
    }
    out
}

/// The public key a DID:key name holds; `Serialization` with the reason
/// when it holds none (see `did_key`).
pub fn public_key_from_did(did: &str) -> (r: Result<PublicKey, LatticeError>)
    ensures
        match did_key(did@) {
            Ok(k) => r matches Ok(p) && p.0@ == k,
            Err(m) => r matches Err(LatticeError::Serialization(e)) && e@ == m,
        },
{
    if !starts_with(did, "did:key:z") {
        let mut m = string_of("Invalid DID format: expected ");
        push_char(&mut m, '\u{27}');
        m.append("did:key:z");
        push_char(&mut m, '\u{27}');
        m.append(" prefix, got ");
        push_char(&mut m, '\u{27}');
        m.append(did);
        push_char(&mut m, '\u{27}');
        assert(m@ =~= did_format_error(did@));
        return Err(LatticeError::Serialization(m));
    }
    proof {
        reveal_strlit("did:key:z");
    }
    let n = did.unicode_len();
    let encoded = did.substring_char(9, n);
    assert(encoded@ =~= did@.skip(9));
    let decoded = match base58_decode(encoded) {
        Ok(v) => v,
        Err(e) => {
            let mut m = string_of("Invalid base58btc in DID: ");
            m.append(e.as_str());
            return Err(LatticeError::Serialization(m));
        },
    };
    if decoded.len() != 34 {
        let mut m = string_of("Invalid DID length: expected 34 bytes, got ");
        push_decimal(&mut m, decoded.len() as u64);
        return Err(LatticeError::Serialization(m));
    }
    if decoded[0] != 0xed || decoded[1] != 0x01 {
        let mut m = string_of("Invalid multicodec prefix: expected [237, 1], got ");
        let ghost head = m@;
        m.append("[");
        push_decimal(&mut m, decoded[0] as u64);
        m.append(", ");
        push_decimal(&mut m, decoded[1] as u64);
        m.append("]");
        proof {
            if decoded@.take(2) == ed25519_multicodec() {
                assert(decoded@.take(2)[0] == decoded@[0]);
                assert(decoded@.take(2)[1] == decoded@[1]);
            }
            assert(m@ =~= head + byte_pair_text(decoded@[0], decoded@[1]));
        }
        return Err(LatticeError::Serialization(m));
    }
    assert(decoded@.take(2) =~= ed25519_multicodec());
    let mut key = [0u8; 32];
    let mut i: usize = 0;
    while i < 32
        invariant
            i <= 32,
            decoded@.len() == 34,
            forall|k: int| 0 <= k < i ==> key@[k] == decoded@[k + 2],
        decreases 32 - i,
    {
        key[i] = decoded[i + 2];
        i = i + 1;
    }
    assert(key@ =~= decoded@.skip(2));
    match key_problem(&key) {
        Some(e) => {
            let mut m = string_of("Invalid Ed25519 public key: ");
            m.append(e.as_str());
            Err(LatticeError::Serialization(m))
        },
        None => Ok(PublicKey(key)),
    }
}

impl PublicKey {
    /// The public key of a verifying key.
    pub fn new(key: PublicKey) -> (r: PublicKey)
        ensures
            r == key,
    {
        key
    }

    /// A public key from its 32 bytes; `Serialization` ("Invalid public key:
    /// " and the reason) for bytes that are no Ed25519 key.
    pub fn from_bytes(bytes: &[u8; 32]) -> (r: Result<PublicKey, LatticeError>)
        ensures
            match ed25519_key_problem(bytes@) {
                None => r == Ok::<PublicKey, LatticeError>(PublicKey(*bytes)),
                Some(m) => r matches Err(LatticeError::Serialization(e)) && e@ == "Invalid public key: "@ + m,
            },
    {
        match key_problem(bytes) {
            None => Ok(PublicKey(*bytes)),
            Some(e) => {
                let mut m = string_of("Invalid public key: ");
                m.append(e.as_str());
                Err(LatticeError::Serialization(m))
            },
        }
    }

    /// The key's 32 bytes.
    pub fn to_bytes(&self) -> (r: [u8; 32])
        ensures
            r == self.0,
    {
        self.0
    }

    /// The key's DID:key name.
    pub fn did(&self) -> (r: String)
        ensures
            r@ == did_text(self.0@),
            ed25519_key_problem(self.0@) is None ==> did_key(r@) == Ok::<Seq<u8>, Seq<char>>(self.0@),
    {
        did_from_public_key(self)
    }

    /// The public key a DID:key name holds (see `public_key_from_did`).
    pub fn from_did(did: &str) -> (r: Result<PublicKey, LatticeError>)
        ensures
            match did_key(did@) {
                Ok(k) => r matches Ok(p) && p.0@ == k,
                Err(m) => r matches Err(LatticeError::Serialization(e)) && e@ == m,
            },
    {
        public_key_from_did(did)
    }

    /// Check a signature of a message; `InvalidSignature` when it does not
    /// verify under this key.
    pub fn verify(&self, message: &[u8], signature: &[u8; 64]) -> (r: Result<(), LatticeError>)
        ensures
            (ed25519_key_problem(self.0@) is None && ed25519_verifies(self.0@, message@, signature@)) ==> r is Ok,
            !(ed25519_key_problem(self.0@) is None && ed25519_verifies(self.0@, message@, signature@)) ==> r
                == Err::<(), LatticeError>(LatticeError::InvalidSignature),
    {
        if verify_with(&self.0, message, signature) {
            Ok(())
        } else {
            Err(LatticeError::InvalidSignature)
        }
    }
}

/// A named identity: an Ed25519 key pair.
pub struct Identity {
    pub name: String,
    secret: [u8; 32],
    pub verifying_key: PublicKey,
}

impl Identity {
    /// The identity's secret key.
    pub closed spec fn secret(&self) -> Seq<u8> {
        self.secret@
    }

    /// The identity's name.
    pub closed spec fn name_text(&self) -> Seq<char> {
        self.name@
    }

    /// The identity's public key.
    pub closed spec fn public_key(&self) -> Seq<u8> {
        self.verifying_key.0@
    }

    /// The identity's public key is the one of its secret key.
    pub closed spec fn well_formed(&self) -> bool {
        self.public_key() == ed25519_public(self.secret@)
    }

    /// A fresh identity with a random key pair.
    pub fn generate(name: &str) -> (r: Identity)
        ensures
            r.name_text() == name@,
            r.well_formed(),
    {
        let secret = fresh_secret();
        Identity::from_secret_bytes(name, &secret)
    }

    /// The identity of a secret key.
    pub fn from_secret_bytes(name: &str, bytes: &[u8; 32]) -> (r: Identity)
        ensures
            r.name_text() == name@,
            r.secret() == bytes@,
            r.public_key() == ed25519_public(bytes@),
            r.well_formed(),
    {
        let public = public_of(bytes);
        Identity { name: string_of(name), secret: *bytes, verifying_key: PublicKey(public) }
    }

    /// A copy of the identity's name.
    pub fn name_string(&self) -> (r: String)
        ensures
            r@ == self.name_text(),
    {
        self.name.clone()
    }

    /// The secret key's bytes (for safe keeping).
    pub fn secret_bytes(&self) -> (r: [u8; 32])
        ensures
            r@ == self.secret(),
    {
        self.secret
    }

    /// The public key's bytes.
    pub fn public_bytes(&self) -> (r: [u8; 32])
        ensures
            r@ == self.public_key(),
    {
        self.verifying_key.0
    }

    /// The identity's DID:key name.
    pub fn did(&self) -> (r: String)
        ensures
            r@ == did_text(self.public_key()),
            self.well_formed() ==> did_key(r@) == Ok::<Seq<u8>, Seq<char>>(self.public_key()),
    {
        let _ = public_of(&self.secret);
        did_from_public_key(&self.verifying_key)
    }

    /// Sign a message; the signature verifies under the identity's key.
    pub fn sign(&self, message: &[u8]) -> (r: [u8; 64])
        ensures
            r@ == ed25519_signature(self.secret(), message@),
            self.well_formed() ==> ed25519_verifies(self.public_key(), message@, r@),
    {
        sign_with(&self.secret, message)
    }

    /// Check a signature against the identity's public key.
    pub fn verify(&self, message: &[u8], signature: &[u8; 64]) -> (r: Result<(), LatticeError>)
        ensures
            (ed25519_key_problem(self.public_key()) is None && ed25519_verifies(
                self.public_key(),
                message@,
                signature@,
            )) ==> r is Ok,
            !(ed25519_key_problem(self.public_key()) is None && ed25519_verifies(
                self.public_key(),
                message@,
                signature@,
            )) ==> r == Err::<(), LatticeError>(LatticeError::InvalidSignature),
    {
        self.verifying_key.verify(message, signature)
    }
}

} // verus!
