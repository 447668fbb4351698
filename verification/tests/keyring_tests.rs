use latticefs::crypto::identity::Identity;
use latticefs::crypto::keyring::{derive_key, KeyManager, KeyStorage};
use latticefs::error::LatticeError;

#[test]
fn test_key_derivation_deterministic() {
    let password = "test-password";
    let salt = [1u8; 16];

    let key1 = derive_key(password, &salt).unwrap();
    let key2 = derive_key(password, &salt).unwrap();

    assert_eq!(key1, key2);
}

#[test]
fn test_key_derivation_different_salts() {
    let password = "test-password";
    let salt1 = [1u8; 16];
    let salt2 = [2u8; 16];

    let key1 = derive_key(password, &salt1).unwrap();
    let key2 = derive_key(password, &salt2).unwrap();

    assert_ne!(key1, key2);
}

#[test]
fn sealed_key_files_open_with_the_right_password_and_name() {
    let manager = KeyManager::new(KeyStorage::encrypted_file("/tmp/keys.enc".to_string()));
    let identity = Identity::generate("test-user");
    let file = manager.key_file_for(&identity, Some("correct")).unwrap();
    assert_eq!(file.name, "test-user");
    assert_eq!(file.version, 1);
    assert_eq!(file.ciphertext.len(), 48);

    let loaded = KeyManager::identity_from_key_file(&file, "test-user", Some("correct")).unwrap();
    assert_eq!(loaded.secret_bytes(), identity.secret_bytes());
    assert_eq!(loaded.did(), identity.did());

    assert!(matches!(
        KeyManager::identity_from_key_file(&file, "test-user", Some("wrong")),
        Err(LatticeError::Decryption(_))
    ));
    match KeyManager::identity_from_key_file(&file, "wrong-user", Some("correct")) {
        Err(LatticeError::IdentityNotFound { name }) => assert_eq!(name, "wrong-user"),
        _ => panic!("expected a name error"),
    }
    match manager.key_file_for(&identity, None) {
        Err(LatticeError::Keyring(m)) => assert_eq!(m, "Password required for encrypted file storage"),
        _ => panic!("expected a password error"),
    }
    assert!(KeyManager::identity_from_key_file(&file, "test-user", None).is_err());
    match manager.file_delete_refusal() {
        Some(LatticeError::Keyring(m)) => assert_eq!(m, "Key deletion not supported for file-based storage"),
        _ => panic!("expected a refusal"),
    }
    assert!(KeyManager::new(KeyStorage::SystemKeyring).file_delete_refusal().is_none());
}

#[test]
fn keyring_secrets_as_hex() {
    let identity = Identity::from_secret_bytes("k", &[5u8; 32]);
    let hex_text = hex::encode(identity.secret_bytes());
    let back = KeyManager::identity_from_keyring_secret("k", &hex_text).unwrap();
    assert_eq!(back.public_bytes(), identity.public_bytes());
    match KeyManager::identity_from_keyring_secret("k", "abc") {
        Err(LatticeError::Keyring(m)) => assert_eq!(m, "Invalid key format: Odd number of digits"),
        _ => panic!("expected a format error"),
    }
    match KeyManager::identity_from_keyring_secret("k", "zz") {
        Err(LatticeError::Keyring(m)) => assert_eq!(m, "Invalid key format: Invalid character 'z' at position 0"),
        _ => panic!("expected a format error"),
    }
    match KeyManager::identity_from_keyring_secret("k", "abcd") {
        Err(LatticeError::Keyring(m)) => assert_eq!(m, "Invalid key length"),
        _ => panic!("expected a length error"),
    }
    assert!(matches!(KeyStorage::detect_with(true), KeyStorage::SystemKeyring));
    match KeyStorage::detect_with(false) {
        KeyStorage::EncryptedFile { path } => assert!(path.ends_with("/latticefs/keys.enc")),
        _ => panic!("expected file storage"),
    }
}
