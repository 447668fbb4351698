use latticefs::crypto::identity::{did_from_public_key, public_key_from_did, Identity, PublicKey};
use latticefs::error::LatticeError;

#[test]
fn test_identity_generation() {
    let identity = Identity::generate("test-user");
    assert_eq!(identity.name, "test-user");
    assert!(identity.did().starts_with("did:key:z"));
}

#[test]
fn test_identity_from_secret_bytes() {
    let identity1 = Identity::generate("test");
    let secret = identity1.secret_bytes();

    let identity2 = Identity::from_secret_bytes("test", &secret);
    assert_eq!(identity1.public_bytes(), identity2.public_bytes());
    assert_eq!(identity1.did(), identity2.did());
}

#[test]
fn test_sign_verify_roundtrip() {
    let identity = Identity::generate("signer");
    let message = b"Hello, LatticeFS!";

    let signature = identity.sign(message);
    assert!(identity.verify(message, &signature).is_ok());
}

#[test]
fn test_verify_wrong_message() {
    let identity = Identity::generate("signer");
    let message = b"Hello, LatticeFS!";
    let wrong_message = b"Wrong message";

    let signature = identity.sign(message);
    assert!(identity.verify(wrong_message, &signature).is_err());
}

#[test]
fn test_verify_wrong_key() {
    let identity1 = Identity::generate("signer1");
    let identity2 = Identity::generate("signer2");
    let message = b"Hello, LatticeFS!";

    let signature = identity1.sign(message);
    assert!(identity2.verify(message, &signature).is_err());
}

#[test]
fn test_did_roundtrip() {
    let identity = Identity::generate("test");
    let did = identity.did();

    let public_key = public_key_from_did(&did).unwrap();
    assert_eq!(identity.public_bytes(), public_key.to_bytes());
}

#[test]
fn test_did_format() {
    let identity = Identity::generate("test");
    let did = identity.did();

    assert!(did.starts_with("did:key:z"));
    assert!(did.len() > 55);
}

#[test]
fn test_public_key_from_did() {
    let identity = Identity::generate("test");
    let did = identity.did();

    let public_key = PublicKey::from_did(&did).unwrap();
    assert_eq!(identity.public_bytes(), public_key.to_bytes());
}

#[test]
fn test_public_key_verify() {
    let identity = Identity::generate("signer");
    let public_key = PublicKey::new(identity.verifying_key);
    let message = b"Test message";

    let signature = identity.sign(message);
    assert!(public_key.verify(message, &signature).is_ok());
}

#[test]
fn test_invalid_did_format() {
    assert!(public_key_from_did("key:z123").is_err());
    assert!(public_key_from_did("did:web:example.com").is_err());
    assert!(public_key_from_did("did:key:z!!!invalid").is_err());
}

fn message_of(r: Result<PublicKey, LatticeError>) -> String {
    match r {
        Err(LatticeError::Serialization(m)) => m,
        _ => panic!("expected a serialization error"),
    }
}

#[test]
fn did_errors_name_their_cause() {
    assert_eq!(
        message_of(public_key_from_did("key:z123")),
        "Invalid DID format: expected 'did:key:z' prefix, got 'key:z123'"
    );
    assert!(message_of(public_key_from_did("did:key:z!!!invalid")).starts_with("Invalid base58btc in DID: "));
    let short = format!("did:key:z{}", bs58::encode([1u8, 2, 3]).into_string());
    assert_eq!(message_of(public_key_from_did(&short)), "Invalid DID length: expected 34 bytes, got 3");
    let mut other = vec![1u8, 2];
    other.extend_from_slice(&[7u8; 32]);
    let other_did = format!("did:key:z{}", bs58::encode(&other).into_string());
    assert_eq!(
        message_of(public_key_from_did(&other_did)),
        "Invalid multicodec prefix: expected [237, 1], got [1, 2]"
    );
}

#[test]
fn did_of_fixed_secret_is_stable_and_reads_back() {
    let identity = Identity::from_secret_bytes("fixed", &[9u8; 32]);
    let did = identity.did();
    let mut expected = vec![0xedu8, 0x01];
    expected.extend_from_slice(&identity.public_bytes());
    assert_eq!(did, format!("did:key:z{}", bs58::encode(&expected).into_string()));
    assert_eq!(did_from_public_key(&identity.verifying_key), did);
    assert_eq!(PublicKey::from_did(&did).unwrap().did(), did);
    assert_eq!(
        PublicKey::from_bytes(&identity.public_bytes()).unwrap().to_bytes(),
        identity.public_bytes()
    );
}

#[test]
fn signatures_of_a_fixed_key_are_deterministic() {
    let identity = Identity::from_secret_bytes("fixed", &[3u8; 32]);
    let a = identity.sign(b"abc");
    let b = identity.sign(b"abc");
    assert_eq!(a, b);
    let mut tampered = a;
    tampered[0] ^= 1;
    assert!(matches!(identity.verify(b"abc", &tampered), Err(LatticeError::InvalidSignature)));
    assert_eq!(identity.secret_bytes(), [3u8; 32]);
}
