use latticefs::crypto::capability::{Capability, Permission, RevocationList};
use latticefs::crypto::identity::{Identity, PublicKey};
use latticefs::error::LatticeError;
use latticefs::ipc::requests::{plan_fetch, plan_share, FetchRequest, ShareRequest};
use latticefs::model::object::{Object, ObjectID, ObjectType, Version, VersionID};
use latticefs::model::policy::Policy;
use latticefs::model::tag::Tag;
use latticefs::query::catalog::Catalog;

fn actor() -> [u8; 32] {
    [0u8; 32]
}

fn catalog_with(tags: Vec<(&str, &str)>) -> (Catalog, ObjectID, VersionID) {
    let mut store = Catalog::new();
    let object_id = ObjectID::from_uuid(0x1111);
    let version_id = VersionID::from_uuid(0x2222);
    let mut version = Version::new(object_id, None, [1u8; 32], [7u8; 32], actor(), 1000, 5, None);
    version.id = version_id;
    let mut object = Object::new(ObjectType::Blob, version_id, actor());
    object.id = object_id;
    for (k, v) in tags {
        object.add_tag(Tag::new(k.to_string(), v.to_string(), actor()));
    }
    store.store_object(object);
    store.store_version(version);
    (store, object_id, version_id)
}

fn token_for(object_id: &ObjectID, permission: Permission) -> (Identity, Capability) {
    let alice = Identity::from_secret_bytes("alice", &[1u8; 32]);
    let bob = Identity::from_secret_bytes("bob", &[2u8; 32]);
    let cap = Capability::create_at(&alice, &PublicKey::new(bob.verifying_key), object_id, permission, 100, 1_000, "n".to_string())
        .unwrap();
    (bob, cap)
}

#[test]
fn fetch_is_planned_for_a_valid_read_grant() {
    let (store, object_id, version_id) = catalog_with(vec![("project", "x")]);
    let (_, cap) = token_for(&object_id, Permission::Read);
    let none = RevocationList::default();
    let req = FetchRequest { object_id: Some(object_id.to_bytes().to_vec()), version_id: None, ucan_token: cap.token.clone() };
    let plan = plan_fetch(&store, &vec![], &req, &none, 1_010).unwrap();
    assert_eq!(plan.object_id, object_id);
    assert_eq!(plan.version_id, version_id);
    assert_eq!(plan.manifest_ref, [7u8; 32]);
    assert_eq!(plan.tags.len(), 1);

    // Expired by then.
    assert!(matches!(plan_fetch(&store, &vec![], &req, &none, 2_000), Err(LatticeError::CapabilityExpired)));
    // No object.
    let missing = FetchRequest { object_id: None, version_id: None, ucan_token: cap.token.clone() };
    match plan_fetch(&store, &vec![], &missing, &none, 1_010) {
        Err(LatticeError::Serialization(m)) => assert_eq!(m, "Missing object_id"),
        _ => panic!("expected a missing id"),
    }
    let short = FetchRequest { object_id: Some(vec![1, 2, 3]), version_id: None, ucan_token: cap.token.clone() };
    match plan_fetch(&store, &vec![], &short, &none, 1_010) {
        Err(LatticeError::Serialization(m)) => {
            assert_eq!(m, "Invalid object id bytes: invalid length: expected 16 bytes, found 3")
        },
        _ => panic!("expected bad bytes"),
    }
    // A version of another object.
    let other = FetchRequest {
        object_id: Some(object_id.to_bytes().to_vec()),
        version_id: Some(VersionID::from_uuid(0x9999).to_bytes().to_vec()),
        ucan_token: cap.token.clone(),
    };
    assert!(matches!(plan_fetch(&store, &vec![], &other, &none, 1_010), Err(LatticeError::VersionNotFound { .. })));
    // A grant on another object.
    let (_, elsewhere) = token_for(&ObjectID::from_uuid(5), Permission::Read);
    let wrong = FetchRequest { object_id: Some(object_id.to_bytes().to_vec()), version_id: None, ucan_token: elsewhere.token };
    assert!(matches!(plan_fetch(&store, &vec![], &wrong, &none, 1_010), Err(LatticeError::Unauthorized { .. })));
    // A denying policy.
    let mut deny = Policy::new("no-read".to_string());
    deny.deny = vec![Permission::Read];
    assert!(matches!(plan_fetch(&store, &vec![deny], &req, &none, 1_010), Err(LatticeError::PolicyViolation { .. })));
}

#[test]
fn quarantined_executables_are_not_fetched() {
    let (store, object_id, _) = catalog_with(vec![("auto:executable", "true")]);
    let (_, cap) = token_for(&object_id, Permission::Admin);
    let req = FetchRequest { object_id: Some(object_id.to_bytes().to_vec()), version_id: None, ucan_token: cap.token };
    match plan_fetch(&store, &vec![], &req, &RevocationList::default(), 1_010) {
        Err(LatticeError::Unauthorized { permission, .. }) => assert_eq!(permission, "read"),
        _ => panic!("expected quarantine"),
    }
}

#[test]
fn share_requests_are_checked() {
    let (store, object_id, _) = catalog_with(vec![]);
    let bob = Identity::from_secret_bytes("bob", &[2u8; 32]);
    let mut open = Policy::new("open".to_string());
    open.allow = vec![Permission::Read, Permission::Comment, Permission::Write, Permission::Share, Permission::Admin];
    open.external_share = true;
    let policies = vec![open];
    let req = ShareRequest {
        object_id: Some(object_id.to_bytes().to_vec()),
        capability: "READ".to_string(),
        audience_did: bob.did(),
        expires_at: Some(5_000_000),
    };
    let plan = plan_share(&store, &policies, &req, 1_000_000).unwrap();
    assert_eq!(plan.object_id, object_id);
    assert_eq!(plan.permission, Permission::Read);
    assert_eq!(plan.audience.to_bytes(), bob.public_bytes());
    assert_eq!(plan.expires_in_secs, 4);
    let past = ShareRequest { expires_at: Some(5), ..req };
    assert_eq!(plan_share(&store, &policies, &past, 1_000_000).unwrap().expires_in_secs, 0);
    let bad = ShareRequest {
        object_id: Some(object_id.to_bytes().to_vec()),
        capability: "owner".to_string(),
        audience_did: bob.did(),
        expires_at: Some(5),
    };
    match plan_share(&store, &policies, &bad, 0) {
        Err(LatticeError::InvalidPredicate(m)) => assert_eq!(m, "Unknown permission: owner"),
        _ => panic!("expected an unknown permission"),
    }
    let no_expiry = ShareRequest {
        object_id: Some(object_id.to_bytes().to_vec()),
        capability: "read".to_string(),
        audience_did: bob.did(),
        expires_at: None,
    };
    match plan_share(&store, &policies, &no_expiry, 0) {
        Err(LatticeError::Serialization(m)) => assert_eq!(m, "Missing expires_at"),
        _ => panic!("expected a missing expiry"),
    }
    // Without a policy that permits external sharing, sharing is refused.
    let plain = vec![Policy::new("plain".to_string())];
    assert!(matches!(plan_share(&store, &plain, &past_req(&object_id, &bob), 0), Err(LatticeError::PolicyViolation { .. })));
}

fn past_req(object_id: &ObjectID, bob: &Identity) -> ShareRequest {
    ShareRequest {
        object_id: Some(object_id.to_bytes().to_vec()),
        capability: "read".to_string(),
        audience_did: bob.did(),
        expires_at: Some(5),
    }
}
