use latticefs::crypto::capability::{Attenuation, Permission, UcanHeader};
use latticefs::crypto::encryption::{decrypt_chunk, encrypt_chunk, EncryptedData, ObjectKey};
use latticefs::error::LatticeError;
use latticefs::model::object::ObjectID;

#[test]
fn test_permission_hierarchy() {
    assert!(Permission::Admin.includes(&Permission::Share));
    assert!(Permission::Admin.includes(&Permission::Write));
    assert!(Permission::Admin.includes(&Permission::Read));
    assert!(Permission::Write.includes(&Permission::Read));
    assert!(!Permission::Read.includes(&Permission::Write));
}

#[test]
fn test_permission_from_str() {
    assert_eq!("read".parse::<Permission>().unwrap(), Permission::Read);
    assert_eq!("WRITE".parse::<Permission>().unwrap(), Permission::Write);
    assert_eq!("Admin".parse::<Permission>().unwrap(), Permission::Admin);
    assert!("invalid".parse::<Permission>().is_err());
}

#[test]
fn permission_levels_and_names() {
    let all = [Permission::Read, Permission::Comment, Permission::Write, Permission::Share, Permission::Admin];
    for (i, p) in all.iter().enumerate() {
        assert_eq!(p.level() as usize, i + 1);
        assert_eq!(Permission::from_name(&p.to_string()).unwrap(), *p);
        assert!(p.includes(p));
    }
    match Permission::from_name("root") {
        Err(LatticeError::InvalidPredicate(m)) => assert_eq!(m, "Unknown permission: root"),
        other => panic!("unexpected {:?}", other),
    }
}

#[test]
fn test_attenuation_object_id() {
    let object_id = ObjectID::new();
    let att = Attenuation::for_object(&object_id, Permission::Read);
    assert_eq!(att.object_id(), Some(object_id));
}

#[test]
fn attenuation_for_other_resources() {
    let att = Attenuation::for_resource("latticefs:view:recent".to_string(), Permission::Write);
    assert_eq!(att.with, "latticefs:view:recent");
    assert_eq!(att.can, Permission::Write);
    assert_eq!(att.object_id(), None);
    let bad = Attenuation::for_resource("latticefs:object:not-a-uuid".to_string(), Permission::Read);
    assert_eq!(bad.object_id(), None);
    let id = ObjectID(0x0123456789abcdef0123456789abcdef);
    assert_eq!(
        Attenuation::for_object(&id, Permission::Read).with,
        "latticefs:object:01234567-89ab-cdef-0123-456789abcdef"
    );
}

#[test]
fn ucan_header_defaults() {
    let h = UcanHeader::default();
    assert_eq!(h.alg, "EdDSA");
    assert_eq!(h.typ, "JWT");
    assert_eq!(h.ucv, "0.10.0");
}

#[test]
fn test_encrypt_decrypt_roundtrip() {
    let key = ObjectKey::generate();
    let plaintext = b"Hello, NeuralFS! This is secret data.";
    let encrypted = key.encrypt(plaintext).unwrap();
    let decrypted = key.decrypt(&encrypted).unwrap();
    assert_eq!(plaintext.as_slice(), decrypted.as_slice());
}

#[test]
fn test_encrypt_decrypt_empty() {
    let key = ObjectKey::generate();
    let plaintext = b"";
    let encrypted = key.encrypt(plaintext).unwrap();
    let decrypted = key.decrypt(&encrypted).unwrap();
    assert!(decrypted.is_empty());
}

#[test]
fn test_encrypt_decrypt_large() {
    let key = ObjectKey::generate();
    let plaintext: Vec<u8> = (0..100_000).map(|i| (i % 256) as u8).collect();
    let encrypted = key.encrypt(&plaintext).unwrap();
    let decrypted = key.decrypt(&encrypted).unwrap();
    assert_eq!(plaintext, decrypted);
}

#[test]
fn test_wrong_key_fails() {
    let key1 = ObjectKey::generate();
    let key2 = ObjectKey::generate();
    let plaintext = b"Secret data";
    let encrypted = key1.encrypt(plaintext).unwrap();
    let result = key2.decrypt(&encrypted);
    assert!(result.is_err());
}

#[test]
fn test_tampered_ciphertext_fails() {
    let key = ObjectKey::generate();
    let plaintext = b"Secret data";
    let mut encrypted = key.encrypt(plaintext).unwrap();
    if !encrypted.ciphertext.is_empty() {
        encrypted.ciphertext[0] ^= 0xFF;
    }
    let result = key.decrypt(&encrypted);
    assert!(result.is_err());
}

#[test]
fn test_encrypted_data_bytes_roundtrip() {
    let key = ObjectKey::generate();
    let plaintext = b"Test data";
    let encrypted = key.encrypt(plaintext).unwrap();
    let bytes = encrypted.to_bytes();
    let restored = EncryptedData::from_bytes(&bytes).unwrap();
    assert_eq!(encrypted.nonce, restored.nonce);
    assert_eq!(encrypted.ciphertext, restored.ciphertext);
    let decrypted = key.decrypt(&restored).unwrap();
    assert_eq!(plaintext.as_slice(), decrypted.as_slice());
}

#[test]
fn test_encrypted_data_size() {
    let key = ObjectKey::generate();
    let plaintext = b"Hello";
    let encrypted = key.encrypt(plaintext).unwrap();
    assert_eq!(encrypted.size(), 12 + plaintext.len() + 16);
}

#[test]
fn test_different_encryptions_different_nonces() {
    let key = ObjectKey::generate();
    let plaintext = b"Same data";
    let encrypted1 = key.encrypt(plaintext).unwrap();
    let encrypted2 = key.encrypt(plaintext).unwrap();
    assert_ne!(encrypted1.nonce, encrypted2.nonce);
    assert_ne!(encrypted1.ciphertext, encrypted2.ciphertext);
}

#[test]
fn test_object_key_from_bytes() {
    let bytes = [42u8; 32];
    let key = ObjectKey::from_bytes(bytes);
    assert_eq!(key.as_bytes(), &bytes);
}

#[test]
fn test_encrypt_chunk_convenience() {
    let key = ObjectKey::generate();
    let chunk = b"Chunk data";
    let encrypted = encrypt_chunk(&key, chunk).unwrap();
    let decrypted = decrypt_chunk(&key, &encrypted).unwrap();
    assert_eq!(chunk.as_slice(), decrypted.as_slice());
}

#[test]
fn encrypted_data_too_short() {
    match EncryptedData::from_bytes(&[1u8; 11]) {
        Err(LatticeError::Decryption(_)) => {}
        other => panic!("unexpected {:?}", other),
    }
    let e = EncryptedData::from_bytes(&[7u8; 12]).unwrap();
    assert_eq!(e.nonce, [7u8; 12]);
    assert!(e.ciphertext.is_empty());
}

#[test]
fn fixed_key_and_nonce_decrypts_known_ciphertext() {
    let key = ObjectKey::from_bytes([0u8; 32]);
    let data = EncryptedData { nonce: [0u8; 12], ciphertext: vec![0u8; 16] };
    match key.decrypt(&data) {
        Err(LatticeError::Decryption(_)) => {}
        other => panic!("unexpected {:?}", other),
    }
}
