use latticefs::config::{config_path, expand_tilde, path_join, Config};
use latticefs::crypto::capability::Permission;
use latticefs::error::LatticeError;
use latticefs::events::{Event, EventKind};
use latticefs::fuse::{inode_for_view_name, RESERVED_MAX};
use latticefs::import::{ExportMode, ImportOptions, MetadataOptions};
use latticefs::ipc::MessageType;
use latticefs::model::object::{Object, ObjectID, ObjectType, VersionID};
use latticefs::model::policy::{Policy, Requirement};
use latticefs::model::tag::Tag;
use latticefs::policy::engine::{PolicyContext, PolicyEngine};
use latticefs::text::join_strings;
use latticefs::policy::quota::{additional_bytes, QuotaEnforcer};
use latticefs::security::{has_executable_tag, is_quarantined_executable, trust_level};
use latticefs::storage::chunks::ChunkRef;
use latticefs::watcher::PersistentRegistry;

fn tag(k: &str, v: &str) -> Tag {
    Tag::new(k.to_string(), v.to_string(), [0u8; 32])
}

#[test]
fn config_defaults_and_paths() {
    let cfg = Config::default();
    assert_eq!(cfg.storage.path, "~/.latticefs");
    assert_eq!(cfg.quota.max_storage_gb, 100);
    assert_eq!(cfg.share.http_port, 8771);
    assert_eq!(cfg.watcher.ignored_patterns.len(), 7);
    assert_eq!(path_join("/a/b", "c"), "/a/b/c");
    assert_eq!(path_join("/a/b/", "c"), "/a/b/c");
    assert_eq!(path_join("/a/b", "/c"), "/c");
    assert_eq!(path_join("", "c"), "c");
    assert_eq!(expand_tilde("~", "/home/u"), "/home/u");
    assert_eq!(expand_tilde("~/x/y", "/home/u"), "/home/u/x/y");
    assert_eq!(expand_tilde("/abs", "/home/u"), "/abs");
    assert_eq!(expand_tilde("~user", "/home/u"), "~user");
    assert_eq!(config_path(Some("/srv/lfs".to_string())), "/srv/lfs/config.toml");
    let cfg = Config::default_with_home(Some("/srv/lfs".to_string()));
    assert_eq!(cfg.storage.path, "/srv/lfs");
    assert_eq!(cfg.socket_path(), "/srv/lfs/latticefs.sock");
    assert_eq!(cfg.revocation_log_path(), "/srv/lfs/logs/revocations.jsonl");
    assert_eq!(cfg.watch_dir(), "/tmp/latticefs-open");
}

#[test]
fn trust_levels_from_tags() {
    assert_eq!(trust_level(&[]), 75);
    assert_eq!(trust_level(&[tag("sys:trust", "40")]), 40);
    assert_eq!(trust_level(&[tag("sys:trust", "+007")]), 7);
    assert_eq!(trust_level(&[tag("sys:trust", "300")]), 75);
    assert_eq!(trust_level(&[tag("sys:trust", "x"), tag("sys:trust", "10")]), 75);
    assert_eq!(trust_level(&[tag("other", "1"), tag("sys:trust", "10")]), 10);
    assert!(!has_executable_tag(&[tag("auto:executable", "false")]));
    let exe = [tag("auto:executable", "true")];
    assert!(has_executable_tag(&exe));
    assert!(is_quarantined_executable(&exe));
    assert!(!is_quarantined_executable(&[tag("auto:executable", "true"), tag("sys:trust", "95")]));
}

fn object_with(tags: Vec<Tag>) -> Object {
    let mut o = Object::new(ObjectType::Blob, VersionID::new(), [0u8; 32]);
    for t in tags {
        o.add_tag(t);
    }
    o
}

#[test]
fn policy_evaluation() {
    let object = object_with(vec![tag("sys:approved-by", "alice"), tag("project", "x")]);
    let context = PolicyContext::for_object(&object);
    assert_eq!(context.approvals, vec!["alice".to_string()]);
    let engine = PolicyEngine::new();
    let mut p1 = Policy::new("p1".to_string());
    p1.allow = vec![Permission::Read, Permission::Write, Permission::Share];
    p1.deny = vec![Permission::Write];
    let decision = engine.evaluate(&[p1.clone()], &context);
    assert_eq!(decision.allowed, vec![Permission::Read, Permission::Share]);
    assert_eq!(decision.reasons, vec!["policy 'p1' denies permission write".to_string()]);
    assert!(decision.requirements_ok);
    assert!(decision.allows(Permission::Read));
    assert!(!decision.allows(Permission::Admin));
    assert!(engine.authorize(&[p1.clone()], &context, Permission::Read).is_ok());
    match engine.authorize(&[p1.clone()], &context, Permission::Write) {
        Err(LatticeError::PolicyViolation { reason }) => assert_eq!(reason, "policy 'p1' denies permission write"),
        other => panic!("unexpected {:?}", other),
    }
    let shared = PolicyContext::for_object(&object).with_external_share(true);
    let decision = engine.evaluate(&[p1.clone()], &shared);
    assert_eq!(decision.allowed, vec![Permission::Read]);
    let mut p2 = Policy::new("p2".to_string());
    p2.require = vec![
        Requirement::ApprovalFrom(vec!["alice".to_string(), "bob".to_string()]),
        Requirement::MinTrust(50),
        Requirement::RequireTag("project".to_string()),
    ];
    let decision = engine.evaluate(&[p2.clone()], &context);
    assert!(!decision.requirements_ok);
    assert_eq!(
        decision.reasons,
        vec!["policy 'p2' requirement not satisfied: ApprovalFrom([\"alice\", \"bob\"])".to_string()]
    );
    match engine.authorize(&[p2], &context, Permission::Read) {
        Err(LatticeError::PolicyViolation { reason }) => {
            assert_eq!(reason, "policy 'p2' requirement not satisfied: ApprovalFrom([\"alice\", \"bob\"])")
        }
        other => panic!("unexpected {:?}", other),
    }
    let none = engine.evaluate(&[], &context);
    assert_eq!(none.allowed.len(), 5);
    let mut p3 = Policy::new("p3".to_string());
    p3.allow = vec![Permission::Comment];
    match engine.authorize(&[p3], &context, Permission::Admin) {
        Err(LatticeError::PolicyViolation { reason }) => assert_eq!(reason, "permission admin not allowed by policy"),
        other => panic!("unexpected {:?}", other),
    }
}

#[test]
fn more_policies_never_grant_more() {
    let object = object_with(vec![]);
    let context = PolicyContext::for_object(&object);
    let engine = PolicyEngine::new();
    let mut policies = Vec::new();
    let perms = [Permission::Read, Permission::Comment, Permission::Write, Permission::Share, Permission::Admin];
    for i in 0..6usize {
        let mut p = Policy::new(format!("policy-{}", i));
        p.allow = perms.iter().copied().filter(|q| (q.level() as usize + i) % 3 != 0).collect();
        p.deny = vec![perms[i % 5]];
        policies.push(p);
    }
    let mut prev: Option<Vec<Permission>> = None;
    for count in 1..=policies.len() {
        let decision = engine.evaluate(&policies[..count], &context);
        if let Some(prev) = prev.as_ref() {
            assert!(decision.allowed.iter().all(|p| prev.contains(p)));
        }
        prev = Some(decision.allowed.clone());
    }
    assert_eq!(join_strings(&vec!["a".to_string(), "b".to_string()], "; "), "a; b");
}

#[test]
fn storage_quota() {
    let mut cfg = Config::default().quota;
    cfg.max_storage_gb = 1;
    let q = QuotaEnforcer::new(cfg);
    let r = q.check_storage_quota(100, 200).unwrap();
    assert_eq!(r.max_bytes, 1 << 30);
    assert_eq!(r.current_bytes, 100);
    match q.check_storage_quota((1 << 30) - 1, 2) {
        Err(LatticeError::QuotaExceeded { current_bytes, max_bytes }) => {
            assert_eq!(current_bytes, (1 << 30) + 1);
            assert_eq!(max_bytes, 1 << 30);
        }
        other => panic!("unexpected {:?}", other),
    }
    assert!(q.check_storage_quota(u64::MAX, 5).is_err());
    let chunks = [
        ChunkRef { hash: [0u8; 32], offset: 0, length: 10 },
        ChunkRef { hash: [1u8; 32], offset: 10, length: 20 },
    ];
    assert_eq!(additional_bytes(&chunks, &[true, false]), 20);
    assert_eq!(additional_bytes(&chunks, &[false, false]), 30);
}

#[test]
fn message_types() {
    assert_eq!(MessageType::from_u16(101).unwrap(), MessageType::ShareRequest);
    assert_eq!(MessageType::from_u16(999).unwrap(), MessageType::Error);
    assert_eq!(MessageType::WatchStatusResponse.code(), 408);
    match MessageType::from_u16(7) {
        Err(LatticeError::InvalidPredicate(m)) => assert_eq!(m, "Unknown message type: 7"),
        other => panic!("unexpected {:?}", other),
    }
    for code in 0..1000u16 {
        if let Ok(t) = MessageType::from_u16(code) {
            assert_eq!(t.code(), code);
        }
    }
}

#[test]
fn view_name_inodes() {
    let a = inode_for_view_name("Recent");
    assert_eq!(a, inode_for_view_name("Recent"));
    assert!(a > RESERVED_MAX);
    let mut data = b"view:".to_vec();
    data.extend_from_slice("Recent".as_bytes());
    let h: [u8; 32] = blake3::hash(&data).into();
    let mut arr = [0u8; 8];
    arr.copy_from_slice(&h[0..8]);
    let expected = u64::from_le_bytes(arr);
    let expected = if expected <= RESERVED_MAX { expected + RESERVED_MAX + 1 } else { expected };
    assert_eq!(a, expected);
}

#[test]
fn events_record_their_fields() {
    let id = ObjectID(1);
    let v = VersionID(2);
    match Event::object_created(&id, &v, [3u8; 32]).kind {
        EventKind::ObjectCreated { object_id, version_id, actor } => {
            assert_eq!(object_id, "00000000-0000-0000-0000-000000000001");
            assert_eq!(version_id, "00000000-0000-0000-0000-000000000002");
            assert_eq!(actor, [3u8; 32]);
        }
        _ => panic!("wrong kind"),
    }
    match Event::version_added(&id, &v, Some(&v), [0u8; 32]).kind {
        EventKind::VersionAdded { parent_version, .. } => {
            assert_eq!(parent_version, Some("00000000-0000-0000-0000-000000000002".to_string()))
        }
        _ => panic!("wrong kind"),
    }
    match Event::policy_violation(None, "read".to_string(), "no".to_string()).kind {
        EventKind::PolicyViolation { object_id, permission, reason } => {
            assert_eq!(object_id, None);
            assert_eq!(permission, "read");
            assert_eq!(reason, "no");
        }
        _ => panic!("wrong kind"),
    }
}

#[test]
fn import_settings() {
    let o = ImportOptions::default();
    assert!(o.extract_exif && o.extract_id3 && o.extract_text);
    let m = MetadataOptions::from_import(&o);
    assert!(m.extract_text);
    assert_eq!("TREE".parse::<ExportMode>().unwrap(), ExportMode::Tree);
    assert_eq!("archive".parse::<ExportMode>().unwrap(), ExportMode::Archive);
    assert_eq!("zip".parse::<ExportMode>().unwrap_err(), "Unknown export mode: zip");
    let r = PersistentRegistry::new("/tmp/reg.json".to_string());
    assert_eq!(r.path(), "/tmp/reg.json");
}
