use latticefs::crypto::capability::{Capability, Permission, RevocationList};
use latticefs::crypto::identity::{Identity, PublicKey};
use latticefs::error::LatticeError;
use latticefs::model::object::ObjectID;
use std::time::Duration;

#[test]
fn test_create_capability() {
    let issuer = Identity::generate("alice");
    let audience = PublicKey::new(Identity::generate("bob").verifying_key);
    let object_id = ObjectID::new();

    let cap = Capability::create(&issuer, &audience, &object_id, Permission::Read, Duration::from_secs(3600)).unwrap();

    assert!(cap.has_permission(&object_id, Permission::Read));
    assert!(!cap.has_permission(&object_id, Permission::Write));
}

#[test]
fn test_parse_roundtrip() {
    let issuer = Identity::generate("alice");
    let audience = PublicKey::new(Identity::generate("bob").verifying_key);
    let object_id = ObjectID::new();

    let cap = Capability::create(&issuer, &audience, &object_id, Permission::Write, Duration::from_secs(3600)).unwrap();

    let parsed = Capability::parse(&cap.token).unwrap();
    assert_eq!(parsed.payload.iss, cap.payload.iss);
    assert_eq!(parsed.payload.aud, cap.payload.aud);
}

#[test]
fn test_validate_signature() {
    let issuer = Identity::generate("alice");
    let audience = PublicKey::new(Identity::generate("bob").verifying_key);
    let object_id = ObjectID::new();

    let cap = Capability::create(&issuer, &audience, &object_id, Permission::Read, Duration::from_secs(3600)).unwrap();

    let revocations = RevocationList::default();
    assert!(cap.validate(&revocations).is_ok());
}

#[test]
fn test_expired_capability() {
    let issuer = Identity::generate("alice");
    let audience = PublicKey::new(Identity::generate("bob").verifying_key);
    let object_id = ObjectID::new();

    let cap = Capability::create(&issuer, &audience, &object_id, Permission::Read, Duration::from_secs(0)).unwrap();

    assert!(cap.is_expired());
    let revocations = RevocationList::default();
    assert!(matches!(cap.validate(&revocations), Err(LatticeError::CapabilityExpired)));
}

#[test]
fn test_delegate_capability() {
    let alice = Identity::generate("alice");
    let bob = Identity::generate("bob");
    let charlie = PublicKey::new(Identity::generate("charlie").verifying_key);
    let object_id = ObjectID::new();

    let bob_cap = Capability::create(
        &alice,
        &PublicKey::new(bob.verifying_key),
        &object_id,
        Permission::Write,
        Duration::from_secs(3600),
    )
    .unwrap();

    let charlie_cap = bob_cap
        .delegate(&bob, &charlie, Permission::Read, Duration::from_secs(1800), &RevocationList::default())
        .unwrap();

    assert!(charlie_cap.validate(&RevocationList::default()).is_ok());
    assert!(charlie_cap.has_permission(&object_id, Permission::Read));
    assert!(!charlie_cap.has_permission(&object_id, Permission::Write));
}

#[test]
fn test_delegate_escalation_fails() {
    let alice = Identity::generate("alice");
    let bob = Identity::generate("bob");
    let charlie = PublicKey::new(Identity::generate("charlie").verifying_key);
    let object_id = ObjectID::new();

    let bob_cap = Capability::create(
        &alice,
        &PublicKey::new(bob.verifying_key),
        &object_id,
        Permission::Read,
        Duration::from_secs(3600),
    )
    .unwrap();

    let result = bob_cap.delegate(&bob, &charlie, Permission::Write, Duration::from_secs(1800), &RevocationList::default());

    assert!(matches!(result, Err(LatticeError::InvalidAttenuation { .. })));
}

#[test]
fn test_unauthorized_delegator() {
    let alice = Identity::generate("alice");
    let bob = Identity::generate("bob");
    let mallory = Identity::generate("mallory");
    let charlie = PublicKey::new(Identity::generate("charlie").verifying_key);
    let object_id = ObjectID::new();

    let bob_cap = Capability::create(
        &alice,
        &PublicKey::new(bob.verifying_key),
        &object_id,
        Permission::Read,
        Duration::from_secs(3600),
    )
    .unwrap();

    let result = bob_cap.delegate(&mallory, &charlie, Permission::Read, Duration::from_secs(1800), &RevocationList::default());

    assert!(matches!(result, Err(LatticeError::Unauthorized { .. })));
}

#[test]
fn test_revocation_signature() {
    let alice = Identity::generate("alice");
    let object_id = ObjectID::new();

    let cap = Capability::create(
        &alice,
        &PublicKey::new(Identity::generate("bob").verifying_key),
        &object_id,
        Permission::Read,
        Duration::from_secs(3600),
    )
    .unwrap();

    let revocation = cap.revoke(&alice, Some("test".to_string()), None, &RevocationList::default()).unwrap();

    assert!(revocation.verify().is_ok());
}

#[test]
fn test_revocation_blocks_validation() {
    let alice = Identity::generate("alice");
    let bob = PublicKey::new(Identity::generate("bob").verifying_key);
    let object_id = ObjectID::new();

    let cap = Capability::create(&alice, &bob, &object_id, Permission::Read, Duration::from_secs(3600)).unwrap();

    let mut revocations = RevocationList::default();
    let rev = cap.revoke(&alice, None, None, &RevocationList::default()).unwrap();
    revocations.add(rev).unwrap();

    assert!(matches!(cap.validate(&revocations), Err(LatticeError::CapabilityRevoked)));
}

#[test]
fn test_revocation_cascades() {
    let alice = Identity::generate("alice");
    let bob = Identity::generate("bob");
    let charlie = PublicKey::new(Identity::generate("charlie").verifying_key);
    let object_id = ObjectID::new();

    let parent = Capability::create(
        &alice,
        &PublicKey::new(bob.verifying_key),
        &object_id,
        Permission::Write,
        Duration::from_secs(3600),
    )
    .unwrap();

    let child = parent
        .delegate(&bob, &charlie, Permission::Read, Duration::from_secs(1800), &RevocationList::default())
        .unwrap();

    let mut revocations = RevocationList::default();
    let rev = parent.revoke(&alice, None, None, &RevocationList::default()).unwrap();
    revocations.add(rev).unwrap();

    assert!(matches!(child.validate(&revocations), Err(LatticeError::CapabilityRevoked)));
}

// ---- Further cases ----

fn fixed(name: &str, seed: u8) -> Identity {
    Identity::from_secret_bytes(name, &[seed; 32])
}

#[test]
fn created_capability_holds_exact_claims() {
    let alice = fixed("alice", 1);
    let bob = fixed("bob", 2);
    let object_id = ObjectID::from_uuid(0x0123_4567_89ab_cdef_0123_4567_89ab_cdef);
    let cap = Capability::create_at(
        &alice,
        &PublicKey::new(bob.verifying_key),
        &object_id,
        Permission::Share,
        100,
        1_000,
        "nonce-1".to_string(),
    )
    .unwrap();
    assert_eq!(cap.issuer(), alice.did());
    assert_eq!(cap.audience(), bob.did());
    assert_eq!(cap.expires_at(), 1_100);
    assert_eq!(cap.payload.nbf, Some(1_000));
    assert_eq!(cap.payload.nnc.as_deref(), Some("nonce-1"));
    assert_eq!(cap.payload.sub.as_deref(), Some("latticefs:object:01234567-89ab-cdef-0123-456789abcdef"));
    assert_eq!(cap.payload.att.len(), 1);
    assert_eq!(cap.payload.att[0].with, "latticefs:object:01234567-89ab-cdef-0123-456789abcdef");
    assert!(cap.payload.prf.is_empty());
    assert_eq!(cap.header.alg, "EdDSA");
    assert_eq!(cap.header.ucv, "0.10.0");
    assert_eq!(cap.token.split('.').count(), 3);
    assert_eq!(cap.signature.len(), 64);
    assert_eq!(cap.object_id(), Some(object_id));
    assert!(cap.is_expired_at(1_100));
    assert!(!cap.is_expired_at(1_099));

    // Validity window.
    let none = RevocationList::default();
    assert!(cap.validate_at(1_050, &none).is_ok());
    assert!(matches!(cap.validate_at(999, &none), Err(LatticeError::CapabilityNotYetValid)));
    assert!(matches!(cap.validate_at(1_100, &none), Err(LatticeError::CapabilityExpired)));

    // The token reads back to the same claims.
    let parsed = Capability::parse(&cap.token).unwrap();
    assert_eq!(parsed.payload.exp, 1_100);
    assert_eq!(parsed.payload.nnc, cap.payload.nnc);
    assert_eq!(parsed.payload.att[0].can, Permission::Share);
    assert_eq!(parsed.signature, cap.signature);
    assert_eq!(parsed.cid(), cap.cid());
    assert_eq!(cap.cid().len(), 64);
    assert_eq!(
        parsed.payload.fct.as_ref().and_then(|f| f.version.clone()).as_deref(),
        Some("0.1")
    );
}

#[test]
fn malformed_tokens_are_refused_with_reasons() {
    match Capability::parse("a.b") {
        Err(LatticeError::Serialization(m)) => assert_eq!(m, "Invalid UCAN format: expected 3 parts"),
        _ => panic!("expected a format error"),
    }
    match Capability::parse("!!.e30.AA") {
        Err(LatticeError::Serialization(m)) => assert!(m.starts_with("Header decode: ")),
        _ => panic!("expected a decode error"),
    }
    // "{}" as header: the algorithm is missing.
    match Capability::parse("e30.e30.AA") {
        Err(LatticeError::Serialization(m)) => assert_eq!(m, "Header parse: missing field `alg`"),
        _ => panic!("expected a header error"),
    }
}

#[test]
fn tampered_token_fails_signature() {
    let alice = fixed("alice", 1);
    let bob = fixed("bob", 2);
    let object_id = ObjectID::from_uuid(7);
    let cap = Capability::create_at(&alice, &PublicKey::new(bob.verifying_key), &object_id, Permission::Read, 100, 1_000, "n".to_string())
        .unwrap();
    let mut forged = cap.clone();
    forged.signature[0] ^= 1;
    assert!(matches!(forged.verify_signature(), Err(LatticeError::InvalidSignature)));
    assert!(matches!(forged.validate_at(1_050, &RevocationList::default()), Err(LatticeError::InvalidSignature)));
    let mut short = cap.clone();
    short.signature.pop();
    assert!(matches!(short.verify_signature(), Err(LatticeError::InvalidSignature)));
    let mut foreign = cap.clone();
    foreign.payload.iss = "did:web:example.com".to_string();
    assert!(matches!(foreign.verify_signature(), Err(LatticeError::Serialization(_))));
    assert!(cap.verify_signature().is_ok());
}

#[test]
fn delegation_narrows_grants_and_expiry() {
    let alice = fixed("alice", 1);
    let bob = fixed("bob", 2);
    let carol = fixed("carol", 3);
    let object_id = ObjectID::from_uuid(42);
    let parent = Capability::create_at(&alice, &PublicKey::new(bob.verifying_key), &object_id, Permission::Admin, 100, 1_000, "p".to_string())
        .unwrap();
    let none = RevocationList::default();
    let child = parent
        .delegate_at(&bob, &PublicKey::new(carol.verifying_key), Permission::Write, 500, &none, 1_010, "c".to_string())
        .unwrap();
    // The child's expiry is capped by the parent's.
    assert_eq!(child.expires_at(), 1_100);
    assert_eq!(child.payload.prf, vec![parent.token.clone()]);
    assert_eq!(child.issuer(), bob.did());
    assert_eq!(child.audience(), carol.did());
    assert_eq!(child.payload.att[0].can, Permission::Write);
    assert!(child.validate_at(1_020, &none).is_ok());
    // An earlier expiry is kept.
    let short = parent
        .delegate_at(&bob, &PublicKey::new(carol.verifying_key), Permission::Read, 5, &none, 1_010, "s".to_string())
        .unwrap();
    assert_eq!(short.expires_at(), 1_015);
    // The refusals carry the permissions' names.
    match child.delegate_at(&carol, &PublicKey::new(bob.verifying_key), Permission::Admin, 5, &none, 1_020, "x".to_string()) {
        Err(LatticeError::InvalidAttenuation { from, to }) => {
            assert_eq!(from, "write");
            assert_eq!(to, "admin");
        },
        _ => panic!("expected an attenuation error"),
    }
    match child.delegate_at(&bob, &PublicKey::new(carol.verifying_key), Permission::Read, 5, &none, 1_020, "x".to_string()) {
        Err(LatticeError::Unauthorized { permission, object }) => {
            assert_eq!(permission, "delegate");
            assert_eq!(object, "capability");
        },
        _ => panic!("expected an authorization error"),
    }
}

#[test]
fn proof_must_name_the_issuer_as_audience() {
    let alice = fixed("alice", 1);
    let bob = fixed("bob", 2);
    let carol = fixed("carol", 3);
    let object_id = ObjectID::from_uuid(42);
    let to_bob = Capability::create_at(&alice, &PublicKey::new(bob.verifying_key), &object_id, Permission::Write, 100, 1_000, "a".to_string())
        .unwrap();
    let to_carol = Capability::create_at(&alice, &PublicKey::new(carol.verifying_key), &object_id, Permission::Write, 100, 1_000, "b".to_string())
        .unwrap();
    let link = to_carol.check_link(&to_bob);
    match link {
        Err(LatticeError::InvalidProofChain(m)) => assert_eq!(m, "Issuer is not the audience of proof"),
        _ => panic!("expected a chain error"),
    }
    let bob_grant = Capability::create_at(&bob, &PublicKey::new(carol.verifying_key), &object_id, Permission::Admin, 100, 1_000, "c".to_string())
        .unwrap();
    assert!(matches!(bob_grant.check_link(&to_bob), Err(LatticeError::InvalidAttenuation { .. })));
    let bob_read = Capability::create_at(&bob, &PublicKey::new(carol.verifying_key), &object_id, Permission::Read, 100, 1_000, "d".to_string())
        .unwrap();
    assert!(bob_read.check_link(&to_bob).is_ok());
}

#[test]
fn revocation_by_admin_and_by_others() {
    let alice = fixed("alice", 1);
    let bob = fixed("bob", 2);
    let dave = fixed("dave", 4);
    let object_id = ObjectID::from_uuid(99);
    let none = RevocationList::default();
    let cap = Capability::create_at(&alice, &PublicKey::new(bob.verifying_key), &object_id, Permission::Read, 100, 1_000, "a".to_string())
        .unwrap();
    // Dave is neither the issuer nor holds an admin grant.
    match cap.revoke_at(&dave, None, None, &none, 1_010) {
        Err(LatticeError::Unauthorized { permission, object }) => {
            assert_eq!(permission, "revoke");
            assert_eq!(object, "capability");
        },
        _ => panic!("expected an authorization error"),
    }
    // An admin grant on the object lets Dave revoke.
    let admin = Capability::create_at(&alice, &PublicKey::new(dave.verifying_key), &object_id, Permission::Admin, 100, 1_000, "b".to_string())
        .unwrap();
    let rev = cap.revoke_at(&dave, Some("why".to_string()), Some(&admin), &none, 1_010).unwrap();
    assert_eq!(rev.ucan_cid, cap.cid());
    assert_eq!(rev.revoked_at, 1_010);
    assert_eq!(rev.revoked_by, dave.did());
    assert!(rev.verify().is_ok());
    // A write grant is not enough.
    let writer = Capability::create_at(&alice, &PublicKey::new(dave.verifying_key), &object_id, Permission::Write, 100, 1_000, "c".to_string())
        .unwrap();
    match cap.revoke_at(&dave, None, Some(&writer), &none, 1_010) {
        Err(LatticeError::Unauthorized { permission, object }) => {
            assert_eq!(permission, "admin");
            assert_eq!(object, object_id.to_string());
        },
        _ => panic!("expected an admin error"),
    }
    // A tampered revocation is refused by a list.
    let mut bad = rev.clone();
    bad.revoked_at += 1;
    assert!(matches!(bad.verify(), Err(LatticeError::InvalidRevocationSignature)));
    let mut list = RevocationList::default();
    assert!(list.add(bad).is_err());
    assert_eq!(list.revocations.len(), 0);
    list.add(rev.clone()).unwrap();
    list.add(rev.clone()).unwrap();
    assert_eq!(list.revocations.len(), 1);
    assert_eq!(list.is_revoked(&cap.cid()).unwrap(), true);
    assert_eq!(list.is_revoked("other").unwrap(), false);
}

#[test]
fn resource_grants() {
    let alice = fixed("alice", 1);
    let bob = fixed("bob", 2);
    let cap = Capability::create_for_resource_at(
        &alice,
        &PublicKey::new(bob.verifying_key),
        "latticefs:view:photos".to_string(),
        Permission::Comment,
        60,
        10,
        "n".to_string(),
    )
    .unwrap();
    assert!(cap.has_permission_for_resource("latticefs:view:photos", Permission::Read));
    assert!(cap.has_permission_for_resource("latticefs:view:photos", Permission::Comment));
    assert!(!cap.has_permission_for_resource("latticefs:view:photos", Permission::Write));
    assert!(!cap.has_permission_for_resource("latticefs:view:other", Permission::Read));
    assert_eq!(cap.object_id(), None);
    assert_eq!(cap.expires_at(), 70);
    let made = Capability::create_for_resource(
        &alice,
        &PublicKey::new(bob.verifying_key),
        "latticefs:view:photos".to_string(),
        Permission::Read,
        Duration::from_secs(60),
    )
    .unwrap();
    assert!(made.validate(&RevocationList::default()).is_ok());
}
