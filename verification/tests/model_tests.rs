use latticefs::model::link::{Link, LinkType};
use latticefs::model::object::{Object, ObjectID, ObjectType, Version, VersionID};
use latticefs::model::state::State;
use latticefs::model::tag::{ActorID, Tag};
use std::collections::HashMap;

fn test_actor() -> ActorID {
    [0u8; 32]
}

// ---- States ----

#[test]
fn test_valid_transitions() {
    assert!(State::Draft.can_transition_to(&State::Review));
    assert!(State::Draft.can_transition_to(&State::Discarded));
    assert!(State::Draft.can_transition_to(&State::Sealed));
    assert!(State::Draft.can_transition_to(&State::Archived));
    assert!(!State::Draft.can_transition_to(&State::Approved));

    assert!(State::Review.can_transition_to(&State::Approved));
    assert!(State::Review.can_transition_to(&State::Draft));
    assert!(State::Review.can_transition_to(&State::Discarded));
    assert!(State::Review.can_transition_to(&State::Sealed));
    assert!(State::Review.can_transition_to(&State::Archived));

    assert!(State::Approved.can_transition_to(&State::Sealed));
    assert!(State::Approved.can_transition_to(&State::Archived));
    assert!(!State::Approved.can_transition_to(&State::Draft));
    assert!(!State::Approved.can_transition_to(&State::Review));

    assert!(State::Discarded.can_transition_to(&State::Archived));
    assert!(!State::Discarded.can_transition_to(&State::Draft));
    assert!(!State::Discarded.can_transition_to(&State::Review));
    assert!(!State::Discarded.can_transition_to(&State::Approved));

    assert!(!State::Sealed.can_transition_to(&State::Draft));
    assert!(!State::Sealed.can_transition_to(&State::Review));
    assert!(!State::Sealed.can_transition_to(&State::Approved));
    assert!(!State::Sealed.can_transition_to(&State::Archived));

    assert!(!State::Archived.can_transition_to(&State::Draft));
    assert!(!State::Archived.can_transition_to(&State::Review));
    assert!(!State::Archived.can_transition_to(&State::Approved));
}

#[test]
fn test_self_transitions() {
    assert!(State::Draft.can_transition_to(&State::Draft));
    assert!(State::Review.can_transition_to(&State::Review));
    assert!(State::Approved.can_transition_to(&State::Approved));
    assert!(State::Discarded.can_transition_to(&State::Discarded));
    assert!(State::Sealed.can_transition_to(&State::Sealed));
    assert!(State::Archived.can_transition_to(&State::Archived));
}

#[test]
fn test_from_str() {
    assert_eq!("draft".parse::<State>().unwrap(), State::Draft);
    assert_eq!("review".parse::<State>().unwrap(), State::Review);
    assert_eq!("approved".parse::<State>().unwrap(), State::Approved);
    assert_eq!("discarded".parse::<State>().unwrap(), State::Discarded);
    assert_eq!("sealed".parse::<State>().unwrap(), State::Sealed);
    assert_eq!("archived".parse::<State>().unwrap(), State::Archived);

    assert!("invalid".parse::<State>().is_err());
}

#[test]
fn test_display() {
    assert_eq!(State::Draft.to_string(), "draft");
    assert_eq!(State::Review.to_string(), "review");
    assert_eq!(State::Approved.to_string(), "approved");
    assert_eq!(State::Discarded.to_string(), "discarded");
    assert_eq!(State::Sealed.to_string(), "sealed");
    assert_eq!(State::Archived.to_string(), "archived");
}

#[test]
fn state_names_round_trip_and_next_states() {
    for s in [State::Draft, State::Review, State::Approved, State::Discarded, State::Sealed, State::Archived] {
        assert_eq!(State::from_name(&s.to_string()).unwrap(), s);
        for t in s.valid_next_states() {
            assert!(s.can_transition_to(&t));
        }
    }
    assert_eq!(State::from_name("SEALED").unwrap(), State::Sealed);
    assert_eq!(State::from_name("nope").unwrap_err(), "Invalid state: nope");
    assert_eq!(State::Sealed.valid_next_states(), vec![State::Sealed]);
}

// ---- Tags ----

#[test]
fn test_tag_creation() {
    let tag = Tag::new("project".to_string(), "phoenix".to_string(), test_actor());
    assert_eq!(tag.key, "project");
    assert_eq!(tag.value, "phoenix");
    assert_eq!(tag.namespace(), "project");
}

#[test]
fn test_tag_parse() {
    let tag = Tag::parse("project:phoenix", test_actor()).unwrap();
    assert_eq!(tag.key, "project");
    assert_eq!(tag.value, "phoenix");
}

#[test]
fn test_tag_parse_nested() {
    let tag = Tag::parse("project:phoenix:deliverables", test_actor()).unwrap();
    assert_eq!(tag.key, "project");
    assert_eq!(tag.value, "phoenix:deliverables");
}

#[test]
fn test_tag_parse_invalid() {
    let result = Tag::parse("invalid", test_actor());
    assert!(result.is_err());
}

#[test]
fn test_tag_full_path() {
    let tag = Tag::new("project".to_string(), "phoenix".to_string(), test_actor());
    assert_eq!(tag.full_path(), "project:phoenix");
}

#[test]
fn test_tag_matches() {
    let tag = Tag::new("project:phoenix".to_string(), "active".to_string(), test_actor());
    assert!(tag.matches("project"));
    assert!(tag.matches("project:phoenix"));
    assert!(tag.matches("project:phoenix:active"));
    assert!(!tag.matches("tag"));
    assert!(!tag.matches("project:apollo"));
}

#[test]
fn test_tag_namespaces() {
    let sys_tag = Tag::new("sys:version".to_string(), "1".to_string(), test_actor());
    let user_tag = Tag::new("user:personal".to_string(), "test".to_string(), test_actor());
    let auto_tag = Tag::new("auto:exif".to_string(), "data".to_string(), test_actor());

    assert!(sys_tag.is_system());
    assert!(!sys_tag.is_user_defined());

    assert!(user_tag.is_user_defined());
    assert!(!user_tag.is_system());

    assert!(auto_tag.is_auto_generated());
    assert!(!auto_tag.is_user_defined());
}

#[test]
fn tag_parse_of_full_path_round_trips() {
    let tag = Tag::new("project".to_string(), "phoenix:x".to_string(), test_actor());
    let back = Tag::parse(&tag.full_path(), test_actor()).unwrap();
    assert_eq!(back.key, tag.key);
    assert_eq!(back.value, tag.value);
    let nested = Tag::new("a:b".to_string(), "c".to_string(), test_actor());
    assert_eq!(nested.namespace(), "a");
    assert!(!nested.matches("a:"));
    assert!(nested.matches("a:b:c"));
}

// ---- Links ----

#[test]
fn test_link_type_transitivity() {
    assert!(LinkType::BelongsTo.is_transitive());
    assert!(LinkType::Replaces.is_transitive());
    assert!(!LinkType::DerivedFrom.is_transitive());
    assert!(!LinkType::References.is_transitive());
    assert!(!LinkType::Related.is_transitive());
}

#[test]
fn test_link_type_bidirectional() {
    assert!(LinkType::Related.is_bidirectional());
    assert!(!LinkType::DerivedFrom.is_bidirectional());
    assert!(!LinkType::References.is_bidirectional());
    assert!(!LinkType::BelongsTo.is_bidirectional());
    assert!(!LinkType::Replaces.is_bidirectional());
}

#[test]
fn test_link_type_from_str() {
    assert_eq!("derived-from".parse::<LinkType>().unwrap(), LinkType::DerivedFrom);
    assert_eq!("references".parse::<LinkType>().unwrap(), LinkType::References);
    assert_eq!("belongs-to".parse::<LinkType>().unwrap(), LinkType::BelongsTo);
    assert_eq!("replaces".parse::<LinkType>().unwrap(), LinkType::Replaces);
    assert_eq!("related".parse::<LinkType>().unwrap(), LinkType::Related);

    assert!("invalid".parse::<LinkType>().is_err());
}

#[test]
fn test_link_type_display() {
    assert_eq!(LinkType::DerivedFrom.to_string(), "derived-from");
    assert_eq!(LinkType::References.to_string(), "references");
    assert_eq!(LinkType::BelongsTo.to_string(), "belongs-to");
    assert_eq!(LinkType::Replaces.to_string(), "replaces");
    assert_eq!(LinkType::Related.to_string(), "related");
}

#[test]
fn link_type_names_round_trip() {
    for t in [LinkType::DerivedFrom, LinkType::References, LinkType::BelongsTo, LinkType::Replaces, LinkType::Related] {
        assert_eq!(LinkType::from_name(&t.to_string()).unwrap(), t);
    }
    assert_eq!(LinkType::from_name("BelongsTo").unwrap(), LinkType::BelongsTo);
    assert_eq!(LinkType::from_name("x").unwrap_err(), "Invalid link type: x");
}

#[test]
fn test_link_creation() {
    let source = vec![1u8; 16];
    let target = vec![2u8; 16];
    let actor = [0u8; 32];

    let link = Link::new(source.clone(), target.clone(), LinkType::References, actor);

    assert_eq!(link.source, source);
    assert_eq!(link.target, target);
    assert_eq!(link.link_type, LinkType::References);
    assert!(link.metadata.is_none());
}

#[test]
fn test_link_with_metadata() {
    let source = vec![1u8; 16];
    let target = vec![2u8; 16];
    let actor = [0u8; 32];

    let mut metadata = HashMap::new();
    metadata.insert("note".to_string(), "test link".to_string());

    let link = Link::with_metadata(source.clone(), target.clone(), LinkType::Related, actor, metadata.clone());

    assert_eq!(link.metadata, Some(metadata));
}

// ---- Objects and versions ----

#[test]
fn test_object_creation() {
    let version_id = VersionID::new();
    let object = Object::new(ObjectType::Blob, version_id, test_actor());

    assert_eq!(object.object_type, ObjectType::Blob);
    assert_eq!(object.current_version, version_id);
    assert_eq!(object.versions.len(), 1);
    assert_eq!(object.versions[0], version_id);
}

#[test]
fn test_object_add_version() {
    let version1 = VersionID::new();
    let mut object = Object::new(ObjectType::Blob, version1, test_actor());

    let version2 = VersionID::new();
    object.add_version(version2);

    assert_eq!(object.current_version, version2);
    assert_eq!(object.versions.len(), 2);
    assert_eq!(object.versions[0], version1);
    assert_eq!(object.versions[1], version2);
}

#[test]
fn test_object_add_tag() {
    let version_id = VersionID::new();
    let mut object = Object::new(ObjectType::Blob, version_id, test_actor());

    let tag = Tag::new("project".to_string(), "phoenix".to_string(), test_actor());
    object.add_tag(tag.clone());

    assert_eq!(object.tags.len(), 1);
    assert_eq!(object.tags[0].key, "project");

    object.add_tag(tag);
    assert_eq!(object.tags.len(), 1);
}

#[test]
fn test_object_remove_tag() {
    let version_id = VersionID::new();
    let mut object = Object::new(ObjectType::Blob, version_id, test_actor());

    let tag = Tag::new("project".to_string(), "phoenix".to_string(), test_actor());
    object.add_tag(tag);

    assert_eq!(object.tags.len(), 1);

    object.remove_tag("project");
    assert_eq!(object.tags.len(), 0);
}

#[test]
fn test_version_creation() {
    let object_id = ObjectID::new();
    let chunk_root = [1u8; 32];
    let manifest_ref = [2u8; 32];

    let version = Version::new(
        object_id,
        None,
        chunk_root,
        manifest_ref,
        test_actor(),
        1000,
        5,
        Some("Initial version".to_string()),
    );

    assert_eq!(version.object_id, object_id);
    assert_eq!(version.parent_version, None);
    assert_eq!(version.chunk_root, chunk_root);
    assert_eq!(version.state, State::Draft);
    assert_eq!(version.size_bytes, 1000);
    assert_eq!(version.chunk_count, 5);
}

#[test]
fn test_version_state_transition() {
    let object_id = ObjectID::new();
    let chunk_root = [1u8; 32];
    let manifest_ref = [2u8; 32];

    let mut version = Version::new(object_id, None, chunk_root, manifest_ref, test_actor(), 1000, 5, None);

    assert!(version.transition_state(State::Review).is_ok());
    assert_eq!(version.state, State::Review);

    assert!(version.transition_state(State::Draft).is_ok());
    let err = version.transition_state(State::Approved).unwrap_err();
    assert_eq!(err, "Invalid state transition: draft -> approved");
    assert_eq!(version.state, State::Draft);
}

#[test]
fn test_object_id_roundtrip() {
    let id = ObjectID::new();
    let bytes = id.to_bytes();
    let id2 = ObjectID::from_uuid(u128::from_be_bytes(bytes));
    assert_eq!(id, id2);
}

#[test]
fn test_version_id_roundtrip() {
    let id = VersionID::new();
    let bytes = id.to_bytes();
    let id2 = VersionID::from_uuid(u128::from_be_bytes(bytes));
    assert_eq!(id, id2);
}

#[test]
fn object_ids_print_as_uuids() {
    let id = ObjectID(0x0123456789abcdef0123456789abcdef);
    assert_eq!(id.to_string(), "01234567-89ab-cdef-0123-456789abcdef");
    assert_eq!(id.to_bytes()[0], 0x01);
    assert_eq!(id.to_bytes()[15], 0xef);
}
