use latticefs::import::{metadata_from, text_source, wants_exif, wants_id3, Id3Fields, MetadataOptions, TextSource};
use latticefs::watcher::{after_commit, plan_file_change, ChangeStep, CommitStep};
use latticefs::storage::content::compute_hash;
use latticefs::crypto::encryption::ObjectKey;
use latticefs::error::LatticeError;
use latticefs::import::build_import;
use latticefs::model::object::{ObjectID, VersionID};
use latticefs::model::state::State;
use latticefs::model::tag::Tag;
use latticefs::query::lexer::Lexer;
use latticefs::query::parser::{parse, Parser};
use latticefs::repo::plan_new_version;
use latticefs::storage::chunks::build_manifest;

fn actor() -> [u8; 32] {
    [7u8; 32]
}

fn pairs(tags: &[Tag]) -> Vec<(String, String)> {
    tags.iter().map(|t| (t.key.clone(), t.value.clone())).collect()
}

#[test]
fn test_build_import_tags_in_order() {
    let manifest = build_manifest(b"hello world");
    let extracted = vec![
        Tag { key: "auto:mimetype".to_string(), value: "text/plain".to_string(), created_at: 1, created_by: actor() },
        Tag { key: "project".to_string(), value: "x".to_string(), created_at: 1, created_by: actor() },
    ];
    let (o, v) = build_import(
        ObjectID(1),
        VersionID(2),
        &manifest,
        [9u8; 32],
        11,
        Some("a.txt".to_string()),
        vec!["docs".to_string(), "a.txt".to_string()],
        &vec!["project:x".to_string(), "kind:note".to_string()],
        extracted,
        actor(),
        42,
    )
    .unwrap();
    assert_eq!(
        pairs(&o.tags),
        vec![
            ("auto:filename_b64".to_string(), "YS50eHQ".to_string()),
            ("auto:relpath_b64".to_string(), "ZG9jcy9hLnR4dA".to_string()),
            ("project".to_string(), "x".to_string()),
            ("kind".to_string(), "note".to_string()),
            ("auto:mimetype".to_string(), "text/plain".to_string()),
        ]
    );
    assert_eq!(o.id, ObjectID(1));
    assert_eq!(o.current_version, VersionID(2));
    assert_eq!(o.versions, vec![VersionID(2)]);
    assert_eq!(v.parent_version, None);
    assert_eq!(v.state, State::Draft);
    assert_eq!(v.size_bytes, 11);
    assert_eq!(v.chunk_count, manifest.chunks.len() as u32);
    assert_eq!(v.chunk_root, manifest.merkle_root);
    assert_eq!(v.created_at, 42);
}

#[test]
fn test_build_import_no_path_no_name() {
    let manifest = build_manifest(b"x");
    let (o, _v) = build_import(ObjectID(1), VersionID(2), &manifest, [0u8; 32], 1, None, vec![], &vec![], vec![], actor(), 0)
        .unwrap();
    assert!(o.tags.is_empty());
}

#[test]
fn test_build_import_bad_tag() {
    let manifest = build_manifest(b"x");
    let r = build_import(
        ObjectID(1),
        VersionID(2),
        &manifest,
        [0u8; 32],
        1,
        Some("a.txt".to_string()),
        vec![],
        &vec!["ok:1".to_string(), "broken".to_string()],
        vec![],
        actor(),
        0,
    );
    assert!(matches!(r, Err(LatticeError::Serialization(_))));
}

fn import_one(state: State) -> (latticefs::model::object::Object, latticefs::model::object::Version) {
    let manifest = build_manifest(b"one");
    let (o, mut v) =
        build_import(ObjectID(1), VersionID(2), &manifest, [0u8; 32], 3, None, vec![], &vec![], vec![], actor(), 0).unwrap();
    v.state = state;
    (o, v)
}

#[test]
fn test_plan_new_version_from_draft() {
    let (o, v) = import_one(State::Draft);
    let manifest = build_manifest(b"two!");
    let (upd, nv, no) =
        plan_new_version(o, v, VersionID(3), &manifest, [1u8; 32], 4, actor(), Some("m".to_string()), 5).unwrap();
    assert_eq!(upd.unwrap().state, State::Discarded);
    assert_eq!(nv.parent_version, Some(VersionID(2)));
    assert_eq!(nv.state, State::Draft);
    assert_eq!(nv.commit_message, Some("m".to_string()));
    assert_eq!(no.current_version, VersionID(3));
    assert_eq!(no.versions, vec![VersionID(2), VersionID(3)]);
}

#[test]
fn test_plan_new_version_from_review_and_approved() {
    let (o, v) = import_one(State::Review);
    let manifest = build_manifest(b"two");
    let (upd, _, _) = plan_new_version(o, v, VersionID(3), &manifest, [1u8; 32], 3, actor(), None, 5).unwrap();
    assert_eq!(upd.unwrap().state, State::Approved);
    let (o, v) = import_one(State::Approved);
    let (upd, _, _) = plan_new_version(o, v, VersionID(3), &manifest, [1u8; 32], 3, actor(), None, 5).unwrap();
    assert!(upd.is_none());
}

#[test]
fn test_plan_new_version_sealed() {
    let (o, v) = import_one(State::Sealed);
    let manifest = build_manifest(b"two");
    let r = plan_new_version(o, v, VersionID(3), &manifest, [1u8; 32], 3, actor(), None, 5);
    assert!(matches!(r, Err(LatticeError::ObjectSealed { .. })));
}

#[test]
fn test_tag_prefix_pattern_matches_longer_key() {
    let tag = Tag::new("projects".to_string(), "x".to_string(), [0u8; 32]);
    assert!(tag.matches("project"));
    assert!(!tag.matches("project:x"));
    let tag2 = Tag::new("project:phoenix".to_string(), "active".to_string(), [0u8; 32]);
    assert!(!tag2.matches("project:ph"));
}

#[test]
fn test_parse_rejects_leftover_tokens() {
    assert!(matches!(parse("tag:a tag:b"), Err(LatticeError::ParseError { .. })));
    let mut p = Parser::new("tag:a tag:b").unwrap();
    assert!(matches!(p.parse(), Err(LatticeError::ParseError { .. })));
    assert!(parse("tag:a AND tag:b SORT updated DESC LIMIT 3").is_ok());
}

#[test]
fn test_peek_error_keeps_position() {
    let mut lx = Lexer::new("!x");
    let before = lx.position();
    assert!(lx.peek_token().is_err());
    assert_eq!(lx.position(), before);
}

#[test]
fn test_encrypt_with_nonce_keeps_nonce() {
    let key = ObjectKey::from_bytes([3u8; 32]);
    let a = key.encrypt_with_nonce(b"chunk", [1u8; 12]).unwrap();
    let b = key.encrypt_with_nonce(b"chunk", [2u8; 12]).unwrap();
    assert_eq!(a.nonce, [1u8; 12]);
    assert_eq!(b.nonce, [2u8; 12]);
    assert_eq!(a.ciphertext.len(), 5 + 16);
    assert_ne!(a.ciphertext, b.ciphertext);
    assert_eq!(key.decrypt(&a).unwrap(), b"chunk".to_vec());
}

#[test]
fn test_tokenize_reaches_end() {
    let mut lx = Lexer::new("tag:a  # trailing comment");
    lx.tokenize().unwrap();
    assert_eq!(lx.position(), "tag:a  # trailing comment".chars().count());
}

#[test]
fn test_plan_file_change_decisions() {
    let h = compute_hash(b"old");
    assert!(matches!(plan_file_change(true, Some(&h), Some(b"new")), ChangeStep::Skip));
    assert!(matches!(plan_file_change(false, None, Some(b"new")), ChangeStep::Skip));
    assert!(matches!(plan_file_change(false, Some(&h), None), ChangeStep::Unregister));
    assert!(matches!(plan_file_change(false, Some(&h), Some(b"old")), ChangeStep::Skip));
    match plan_file_change(false, Some(&h), Some(b"new")) {
        ChangeStep::Commit(n) => assert_eq!(n, compute_hash(b"new")),
        _ => panic!("expected a commit"),
    }
}

#[test]
fn test_after_commit_decisions() {
    let (o, v) = import_one(State::Draft);
    let _ = o;
    let h = [5u8; 32];
    match after_commit(&Ok(v), h) {
        CommitStep::UpdateHash(x) => assert_eq!(x, h),
        _ => panic!("expected an update"),
    }
    assert!(matches!(after_commit(&Err(LatticeError::ObjectSealed { id: "x".to_string() }), h), CommitStep::Unregister));
    assert!(matches!(after_commit(&Err(LatticeError::CyclicVersion), h), CommitStep::Keep));
}

#[test]
fn test_metadata_from_tags_in_order() {
    let id3 = Some(Id3Fields {
        title: Some("Song".to_string()),
        artist: None,
        album: Some("Album".to_string()),
        genre: None,
        year: Some(1999),
        track: Some(7),
    });
    let exif = vec![("DateTime".to_string(), "2024-01-01".to_string())];
    let m = metadata_from("audio/mpeg", true, &exif, &id3, Some("words".to_string()), actor(), 3);
    assert_eq!(
        pairs(&m.tags),
        vec![
            ("auto:mimetype".to_string(), "audio/mpeg".to_string()),
            ("auto:executable".to_string(), "true".to_string()),
            ("auto:exif:datetime".to_string(), "2024-01-01".to_string()),
            ("auto:id3:title".to_string(), "Song".to_string()),
            ("auto:id3:album".to_string(), "Album".to_string()),
            ("auto:id3:year".to_string(), "1999".to_string()),
            ("auto:id3:track".to_string(), "7".to_string()),
            ("auto:text".to_string(), "true".to_string()),
        ]
    );
    assert_eq!(m.text, Some("words".to_string()));
    let m2 = metadata_from("text/plain", false, &vec![], &None, Some(String::new()), actor(), 3);
    assert_eq!(pairs(&m2.tags), vec![("auto:mimetype".to_string(), "text/plain".to_string())]);
    assert_eq!(m2.text, None);
}

#[test]
fn test_metadata_decisions() {
    let on = MetadataOptions { extract_exif: true, extract_id3: true, extract_text: true };
    let off = MetadataOptions { extract_exif: false, extract_id3: false, extract_text: false };
    assert!(wants_exif(&on, "image/png"));
    assert!(!wants_exif(&off, "image/png"));
    assert!(!wants_exif(&on, "audio/mpeg"));
    assert!(wants_id3(&on, "audio/mpeg"));
    assert_eq!(text_source(&on, "application/pdf"), TextSource::Pdf);
    assert_eq!(text_source(&on, "text/markdown"), TextSource::Plain);
    assert_eq!(text_source(&on, "image/png"), TextSource::NoText);
    assert_eq!(text_source(&off, "text/plain"), TextSource::NoText);
}
