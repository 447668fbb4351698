//! Where identity keys are kept: the system keyring, or a file holding the
//! secret key sealed with AES-256-GCM under a key derived from a password
//! by Argon2id.

use vstd::prelude::*;
use crate::crypto::encryption::{aes256gcm_open, aes256gcm_seal, aes_open, aes_seal, fill_random};
use crate::crypto::identity::{ed25519_public, Identity};
use crate::error::{HexError, LatticeError};
use crate::query::lexer::push_decimal;
use crate::storage::content::{hex_decode, hex_decode_spec};
use crate::text::string_of;
use vstd::string::StringSliceAdditionalSpecFns;

verus! {

/// The key Argon2id (default parameters) derives from a password and a
/// salt.
pub uninterp spec fn argon2id_key(password: Seq<u8>, salt: Seq<u8>) -> Seq<u8>;

/// `Argon2::default().hash_password_into(password, salt, &mut key)` into a
/// 32-byte key. Claimed, as the crate's source shows: it fails only for a
/// password longer than `0xFFFFFFFF` bytes (the salt's 16 bytes and the
/// key's 32 are within the limits), with the text `password is too long`;
/// else the key is the named one.
#[verifier::external_body]
fn argon2_derive(password: &[u8], salt: &[u8; 16]) -> (r: Result<[u8; 32], String>)
    ensures
        match r {
            Ok(k) => password@.len() <= 0xFFFF_FFFF && k@ == argon2id_key(password@, salt@),
            Err(m) => password@.len() > 0xFFFF_FFFF && m@ == "password is too long"@,
        },
{
    let mut key = [0u8; 32];
    match argon2::Argon2::default().hash_password_into(password, salt, &mut key) {
        Ok(()) => Ok(key),
        Err(e) => Err(e.to_string()),
    }
}

/// `dirs::config_dir()`, as text (`to_string_lossy`). It depends on the
/// environment, so nothing is claimed of it.
#[verifier::external_body]
fn config_dir_text() -> (r: Option<String>) {
    match dirs::config_dir() {
        Some(p) => Some(p.to_string_lossy().into_owned()),
        None => None,
    }
}

/// `format!("{:?}", c)`: the debug text of a character. Nothing is claimed
/// of it.
#[verifier::external_body]
fn char_debug(c: char) -> (r: String) {
    format!("{:?}", c)
}

/// Where keys are kept.
#[derive(Debug, Clone)]
pub enum KeyStorage {
    /// The system keyring.
    SystemKeyring,
    /// A password-sealed file.
    EncryptedFile { path: String },
}

/// `base/latticefs/keys.enc`.
pub open spec fn default_key_file(base: Seq<char>) -> Seq<char> {
    base + "/latticefs/keys.enc"@
}

impl KeyStorage {
    /// The storage to use: the system keyring when it can be reached, else
    /// the file `latticefs/keys.enc` in the configuration directory (`.`
    /// when there is none).
    pub fn detect_with(keyring_available: bool) -> (r: KeyStorage)
        ensures
            keyring_available ==> r is SystemKeyring,
            !keyring_available ==> (r matches KeyStorage::EncryptedFile { path } && exists|base: Seq<char>|
                path@ == default_key_file(base)),
    {
        if keyring_available {
            return KeyStorage::SystemKeyring;
        }
        let mut path = match config_dir_text() {
            Some(d) => d,
            None => string_of("."),
        };
        let ghost base = path@;
        path.append("/latticefs/keys.enc");
        assert(path@ == default_key_file(base));
        KeyStorage::EncryptedFile { path }
    }

    /// File storage at a path.
    pub fn encrypted_file(path: String) -> (r: KeyStorage)
        ensures
            r matches KeyStorage::EncryptedFile { path: p } && p@ == path@,
    {
        KeyStorage::EncryptedFile { path }
    }
}

/// A secret key sealed under a password: the identity's name, the salt of
/// the key derivation, the nonce and the ciphertext.
#[derive(Debug, Clone)]
pub struct EncryptedKeyFile {
    pub version: u32,
    pub name: String,
    pub salt: [u8; 16],
    pub nonce: [u8; 12],
    pub ciphertext: Vec<u8>,
}

/// Keeps identity keys in a storage.
pub struct KeyManager {
    pub storage: KeyStorage,
}

/// The key derived from a password and a salt.
pub fn derive_key(password: &str, salt: &[u8; 16]) -> (r: Result<[u8; 32], LatticeError>)
    ensures
        password.spec_bytes().len() <= 0xFFFF_FFFF ==> (r matches Ok(k) && k@ == argon2id_key(password.spec_bytes(), salt@)),
        password.spec_bytes().len() > 0xFFFF_FFFF ==> (r matches Err(LatticeError::Keyring(m)) && m@
            == "Key derivation failed: "@ + "password is too long"@),
{
    match argon2_derive(password.as_bytes(), salt) {
        Ok(k) => Ok(k),
        Err(e) => {
            let mut m = string_of("Key derivation failed: ");
            m.append(e.as_str());
            Err(LatticeError::Keyring(m))
        },
    }
}

/// The refusal without a password.
pub open spec fn password_required() -> Seq<char> {
    "Password required for encrypted file storage"@
}

impl KeyManager {
    /// A manager of a storage.
    pub fn new(storage: KeyStorage) -> (r: KeyManager)
        ensures
            r.storage == storage,
    {
        KeyManager { storage }
    }

    /// The sealed file of an identity's secret key, with a given salt and
    /// nonce: the secret sealed under the key derived from the password.
    pub fn seal_key_file(identity: &Identity, password: &str, salt: [u8; 16], nonce: [u8; 12]) -> (r: Result<
        EncryptedKeyFile,
        LatticeError,
    >)
        ensures
            password.spec_bytes().len() <= 0xFFFF_FFFF ==> (r matches Ok(f) && f.version == 1 && f.name@
                == identity.name_text() && f.salt == salt && f.nonce == nonce && f.ciphertext@ == aes256gcm_seal(
                argon2id_key(password.spec_bytes(), salt@),
                nonce@,
                identity.secret(),
            ) && aes256gcm_open(argon2id_key(password.spec_bytes(), salt@), nonce@, f.ciphertext@) == Some(
                identity.secret(),
            )),
            password.spec_bytes().len() > 0xFFFF_FFFF ==> r is Err,
    {
        let key = match derive_key(password, &salt) {
            Ok(k) => k,
            Err(e) => return Err(e),
        };
        let secret = identity.secret_bytes();
        match aes_seal(&key, &nonce, &secret) {
            Some(ciphertext) => Ok(EncryptedKeyFile { version: 1, name: identity.name_string(), salt, nonce, ciphertext }),
            None => Err(LatticeError::Encryption(string_of("Encryption failed: aead::Error"))),
        }
    }

    /// The sealed file of an identity's secret key, with a fresh random
    /// salt and nonce; refused without a password.
    pub fn key_file_for(&self, identity: &Identity, password: Option<&str>) -> (r: Result<EncryptedKeyFile, LatticeError>)
        ensures
            password is None ==> (r matches Err(LatticeError::Keyring(m)) && m@ == password_required()),
            (password matches Some(p) && p.spec_bytes().len() <= 0xFFFF_FFFF) ==> (r matches Ok(f) && f.name@
                == identity.name_text() && aes256gcm_open(argon2id_key(password->0.spec_bytes(), f.salt@), f.nonce@, f.ciphertext@)
                == Some(identity.secret())),
    {
        let password = match password {
            None => return Err(LatticeError::Keyring(string_of("Password required for encrypted file storage"))),
            Some(p) => p,
        };
        let mut salt = [0u8; 16];
        fill_random(&mut salt);
        let mut nonce = [0u8; 12];
        fill_random(&mut nonce);
        KeyManager::seal_key_file(identity, password, salt, nonce)
    }

    /// The identity a sealed file holds: refused without a password, for
    /// another name (`IdentityNotFound`), when the derived key does not
    /// open the seal, or when the secret is not 32 bytes.
    pub fn identity_from_key_file(file: &EncryptedKeyFile, name: &str, password: Option<&str>) -> (r: Result<
        Identity,
        LatticeError,
    >)
        ensures
            match password {
                None => r matches Err(LatticeError::Keyring(m)) && m@ == password_required(),
                Some(p) => if file.name@ != name@ {
                    r matches Err(LatticeError::IdentityNotFound { name: n }) && n@ == name@
                } else if p.spec_bytes().len() > 0xFFFF_FFFF {
                    r is Err
                } else {
                    match aes256gcm_open(argon2id_key(p.spec_bytes(), file.salt@), file.nonce@, file.ciphertext@) {
                        None => r matches Err(LatticeError::Decryption(m)) && m@ == "Decryption failed: aead::Error"@,
                        Some(s) => if s.len() != 32 {
                            r matches Err(LatticeError::Decryption(m)) && m@ == "Invalid key length"@
                        } else {
                            r matches Ok(id) && id.name_text() == name@ && id.secret() == s
                                && id.public_key() == ed25519_public(s) && id.well_formed()
                        },
                    }
                },
            },
    {
        let password = match password {
            None => return Err(LatticeError::Keyring(string_of("Password required for encrypted file storage"))),
            Some(p) => p,
        };
        if !crate::text::str_eq(file.name.as_str(), name) {
            return Err(LatticeError::IdentityNotFound { name: string_of(name) });
        }
        let key = match derive_key(password, &file.salt) {
            Ok(k) => k,
            Err(e) => return Err(e),
        };
        let plain = match aes_open(&key, &file.nonce, file.ciphertext.as_slice()) {
            Some(p) => p,
            None => return Err(LatticeError::Decryption(string_of("Decryption failed: aead::Error"))),
        };
        if plain.len() != 32 {
            return Err(LatticeError::Decryption(string_of("Invalid key length")));
        }
        let secret = to_array32(&plain);
        Ok(Identity::from_secret_bytes(name, &secret))
    }

    /// The identity of a secret key kept in the keyring as hex text:
    /// `Keyring` for text that is not hex or not 32 bytes.
    pub fn identity_from_keyring_secret(name: &str, secret_hex: &str) -> (r: Result<Identity, LatticeError>)
        ensures
            match hex_decode_spec(secret_hex.spec_bytes()) {
                Err(e) => r matches Err(LatticeError::Keyring(m)) && (e is OddLength ==> m@
                    == "Invalid key format: "@ + "Odd number of digits"@) && (e is InvalidStringLength ==> m@
                    == "Invalid key format: "@ + "Invalid string length"@),
                Ok(b) => if b.len() != 32 {
                    r matches Err(LatticeError::Keyring(m)) && m@ == "Invalid key length"@
                } else {
                    r matches Ok(id) && id.name_text() == name@ && id.secret() == b && id.well_formed()
                },
            },
    {
        match hex_decode(secret_hex) {
            Err(e) => {
                let mut m = string_of("Invalid key format: ");
                match e {
                    HexError::OddLength => m.append("Odd number of digits"),
                    HexError::InvalidStringLength => m.append("Invalid string length"),
                    HexError::InvalidHexCharacter { c, index } => {
                        m.append("Invalid character ");
                        let d = char_debug(c);
                        m.append(d.as_str());
                        m.append(" at position ");
                        push_decimal(&mut m, index as u64);
                    },
                }
                Err(LatticeError::Keyring(m))
            },
            Ok(bytes) => {
                if bytes.len() != 32 {
                    return Err(LatticeError::Keyring(string_of("Invalid key length")));
                }
                let secret = to_array32(&bytes);
                Ok(Identity::from_secret_bytes(name, &secret))
            },
        }
    }

    /// Deleting a key from file storage is refused; from the keyring it is
    /// left to the keyring (`None`).
    pub fn file_delete_refusal(&self) -> (r: Option<LatticeError>)
        ensures
            self.storage is SystemKeyring ==> r is None,
            self.storage is EncryptedFile ==> (r matches Some(LatticeError::Keyring(m)) && m@
                == "Key deletion not supported for file-based storage"@),
    {
        match &self.storage {
            KeyStorage::SystemKeyring => None,
            KeyStorage::EncryptedFile { .. } => Some(
                LatticeError::Keyring(string_of("Key deletion not supported for file-based storage")),
            ),
        }
    }
}

/// 32 bytes as an array.
fn to_array32(v: &Vec<u8>) -> (r: [u8; 32])
    requires
        v@.len() == 32,
    ensures
        r@ == v@,
{
    let mut out = [0u8; 32];
    let mut i: usize = 0;
    while i < 32
        invariant
            i <= 32,
            v@.len() == 32,
            forall|k: int| 0 <= k < i ==> out@[k] == v@[k],
        decreases 32 - i,
    {
        out[i] = v[i];
        i = i + 1;
    }
    assert(out@ =~= v@);
    out
}

} // verus!
