use latticefs::error::LatticeError;
use latticefs::model::object::{Object, ObjectID, ObjectType, Version, VersionID};
use latticefs::model::state::State;
use latticefs::model::tag::Tag;
use latticefs::query::catalog::Catalog;
use latticefs::views::builtin::{BuiltinView, BuiltinViews};
use latticefs::views::dynamic::{DynamicView, ViewConfig};
use latticefs::views::snapshot::ViewSnapshot;
use latticefs::views::{
    effective_query, effective_query_with_options, EffectiveQueryOptions, View, ViewID, ViewJoinOperator, ViewStore,
};
use latticefs::watcher::{WatchEntry, WatchRegistry};

fn test_actor() -> [u8; 32] {
    [0u8; 32]
}

#[test]
fn test_view_creation() {
    let view = View::new("My Projects".to_string(), "tag:project".to_string(), test_actor())
        .with_description("All project-tagged objects".to_string());

    assert_eq!(view.name, "My Projects");
    assert_eq!(view.query, "tag:project");
    assert!(view.description.is_some());
}

#[test]
fn test_view_store() {
    let mut store = ViewStore::new();

    let view = View::new("Recent".to_string(), "updated within 7d".to_string(), test_actor());
    let id = view.id;

    store.store(view).unwrap();

    assert!(store.has_name("Recent"));
    let retrieved = store.get(&id).unwrap();
    assert_eq!(retrieved.name, "Recent");

    let by_name = store.get_by_name("Recent").unwrap();
    assert_eq!(by_name.id, id);
}

#[test]
fn test_view_store_name_conflict() {
    let mut store = ViewStore::new();

    let view1 = View::new("Test".to_string(), "tag:a".to_string(), test_actor());
    let view2 = View::new("Test".to_string(), "tag:b".to_string(), test_actor());

    store.store(view1).unwrap();
    let result = store.store(view2);

    assert!(result.is_err());
}

#[test]
fn test_view_delete() {
    let mut store = ViewStore::new();

    let view = View::new("ToDelete".to_string(), "tag:temp".to_string(), test_actor());
    let id = view.id;

    store.store(view).unwrap();
    assert!(store.has_name("ToDelete"));

    store.delete(&id).unwrap();
    assert!(!store.has_name("ToDelete"));
}

#[test]
fn test_view_with_parent() {
    let view = View::new("Child".to_string(), "tag:child".to_string(), test_actor());
    let parent_id = ViewID::new();
    let nested_view = view.with_parent(parent_id);

    assert_eq!(nested_view.parent_id, Some(parent_id));
}

#[test]
fn name_conflict_message_and_replacement() {
    let mut store = ViewStore::new();
    let a = View::new_at("Same".to_string(), "tag:a".to_string(), test_actor(), ViewID::from_uuid(1), 10);
    let b = View::new_at("Same".to_string(), "tag:b".to_string(), test_actor(), ViewID::from_uuid(2), 10);
    store.store(a.clone()).unwrap();
    match store.store(b) {
        Err(LatticeError::InvalidViewQuery(m)) => assert_eq!(m, "View with name 'Same' already exists"),
        _ => panic!("expected a conflict"),
    }
    // The same view stored again replaces itself.
    let mut a2 = a.clone();
    a2.update_query_at("tag:c".to_string(), 20);
    store.store(a2).unwrap();
    assert_eq!(store.get(&ViewID::from_uuid(1)).unwrap().query, "tag:c");
    assert_eq!(store.get(&ViewID::from_uuid(1)).unwrap().modified_at, 20);
    assert_eq!(store.list().len(), 1);
    match store.get(&ViewID::from_uuid(9)) {
        Err(LatticeError::ViewNotFound { name }) => assert_eq!(name, "00000000-0000-0000-0000-000000000009"),
        _ => panic!("expected not found"),
    }
    match store.get_by_name("Other") {
        Err(LatticeError::ViewNotFound { name }) => assert_eq!(name, "Other"),
        _ => panic!("expected not found"),
    }
}

#[test]
fn effective_queries_of_nested_views() {
    let mut store = ViewStore::new();
    let root = View::new_at("Root".to_string(), "tag:a".to_string(), test_actor(), ViewID::from_uuid(1), 0);
    let mid = View::new_at("Mid".to_string(), "tag:b".to_string(), test_actor(), ViewID::from_uuid(2), 0)
        .with_parent(ViewID::from_uuid(1));
    let leaf = View::new_at("Leaf".to_string(), "tag:c".to_string(), test_actor(), ViewID::from_uuid(3), 0)
        .with_parent(ViewID::from_uuid(2));
    store.store(root.clone()).unwrap();
    store.store(mid.clone()).unwrap();
    store.store(leaf.clone()).unwrap();
    assert_eq!(effective_query(&store, &leaf).unwrap(), "(tag:a) AND (tag:b) AND (tag:c)");
    assert_eq!(effective_query(&store, &root).unwrap(), "(tag:a)");
    let or = EffectiveQueryOptions { max_parent_depth: 16, join_operator: ViewJoinOperator::Or };
    let text = effective_query_with_options(&store, &leaf, or).unwrap();
    assert!(text.contains(" OR "));
    assert!(!text.contains(" AND "));
    let shallow = EffectiveQueryOptions { max_parent_depth: 1, join_operator: ViewJoinOperator::And };
    match effective_query_with_options(&store, &leaf, shallow) {
        Err(LatticeError::InvalidViewQuery(m)) => assert_eq!(m, "Parent chain depth exceeds maximum of 1 levels"),
        _ => panic!("expected a depth error"),
    }
    let none = EffectiveQueryOptions { max_parent_depth: 0, join_operator: ViewJoinOperator::And };
    assert!(effective_query_with_options(&store, &mid, none).is_err());
    // A cycle: the root made a child of the leaf.
    let looped = root.clone().with_parent(ViewID::from_uuid(3));
    store.store(looped.clone()).unwrap();
    match effective_query(&store, &leaf) {
        Err(LatticeError::InvalidViewQuery(m)) => assert_eq!(m, "Circular reference detected in parent chain"),
        _ => panic!("expected a cycle error"),
    }
    // A missing parent.
    let orphan = View::new_at("Orphan".to_string(), "tag:o".to_string(), test_actor(), ViewID::from_uuid(8), 0)
        .with_parent(ViewID::from_uuid(77));
    assert!(matches!(effective_query(&store, &orphan), Err(LatticeError::ViewNotFound { .. })));
}

fn test_object_ids(count: usize) -> Vec<ObjectID> {
    (0..count).map(|_| ObjectID::new()).collect()
}

#[test]
fn test_snapshot_creation() {
    let objects = test_object_ids(5);
    let snapshot = ViewSnapshot::new("Test Snapshot".to_string(), "tag:project".to_string(), objects.clone(), test_actor());

    assert_eq!(snapshot.name, "Test Snapshot");
    assert_eq!(snapshot.len(), 5);
    assert!(!snapshot.is_empty());
    assert!(snapshot.verify_integrity());
}

#[test]
fn test_snapshot_contains() {
    let objects = test_object_ids(3);
    let other = ObjectID::new();

    let snapshot = ViewSnapshot::new("Test".to_string(), "tag:test".to_string(), objects.clone(), test_actor());

    assert!(snapshot.contains(&objects[0]));
    assert!(snapshot.contains(&objects[1]));
    assert!(snapshot.contains(&objects[2]));
    assert!(!snapshot.contains(&other));
}

#[test]
fn test_snapshot_integrity() {
    let objects = test_object_ids(5);
    let mut snapshot = ViewSnapshot::new("Test".to_string(), "tag:test".to_string(), objects, test_actor());

    assert!(snapshot.verify_integrity());

    snapshot.object_ids.push(ObjectID::new());
    assert!(!snapshot.verify_integrity());
}

#[test]
fn test_snapshot_diff() {
    let common = test_object_ids(3);
    let only_in_a = test_object_ids(2);
    let only_in_b = test_object_ids(2);

    let mut objects_a = common.clone();
    objects_a.extend(only_in_a.clone());

    let mut objects_b = common.clone();
    objects_b.extend(only_in_b.clone());

    let snapshot_a = ViewSnapshot::new("A".to_string(), "tag:a".to_string(), objects_a, test_actor());
    let snapshot_b = ViewSnapshot::new("B".to_string(), "tag:b".to_string(), objects_b, test_actor());

    let diff = snapshot_a.diff(&snapshot_b);

    assert_eq!(diff.common_count, 3);
    assert_eq!(diff.added.len(), 2);
    assert_eq!(diff.removed.len(), 2);
    assert!(!diff.is_empty());
    assert_eq!(diff.change_count(), 4);
}

#[test]
fn test_snapshot_diff_no_changes() {
    let objects = test_object_ids(5);

    let snapshot_a = ViewSnapshot::new("A".to_string(), "tag:a".to_string(), objects.clone(), test_actor());
    let snapshot_b = ViewSnapshot::new("B".to_string(), "tag:b".to_string(), objects, test_actor());

    let diff = snapshot_a.diff(&snapshot_b);

    assert!(diff.is_empty());
    assert_eq!(diff.common_count, 5);
}

#[test]
fn test_snapshot_iter() {
    let objects = test_object_ids(3);
    let snapshot = ViewSnapshot::new("Test".to_string(), "tag:test".to_string(), objects.clone(), test_actor());

    let collected: Vec<&ObjectID> = snapshot.iter().collect();
    assert_eq!(collected.len(), 3);
}

#[test]
fn test_snapshot_from_view() {
    let view = View::new("My View".to_string(), "tag:project".to_string(), test_actor());

    let objects = test_object_ids(5);
    let snapshot = ViewSnapshot::from_view(&view, objects, test_actor());

    assert_eq!(snapshot.source_view, Some(view.id));
    assert!(snapshot.name.contains("snapshot"));
}

#[test]
fn snapshot_hash_and_duplicates() {
    let a = ObjectID::from_uuid(1);
    let b = ObjectID::from_uuid(2);
    let s1 = ViewSnapshot::new("x".to_string(), "q".to_string(), vec![a, b, a], test_actor());
    let s2 = ViewSnapshot::new("y".to_string(), "q".to_string(), vec![b], test_actor());
    let mut bytes = Vec::new();
    for id in [a, b, a] {
        bytes.extend_from_slice(&id.to_bytes());
    }
    assert_eq!(s1.content_hash, *blake3::hash(&bytes).as_bytes());
    let d = s1.diff(&s2);
    assert_eq!(d.removed, vec![a]);
    assert!(d.added.is_empty());
    assert_eq!(d.common_count, 1);
    assert_eq!(d.from, s1.id);
    assert_eq!(d.to, s2.id);
    let view = View::new_at("V".to_string(), "tag:v".to_string(), test_actor(), ViewID::from_uuid(5), 0)
        .with_description("d".to_string());
    let snap = ViewSnapshot::from_view(&view, vec![], test_actor());
    assert_eq!(snap.name, "V (snapshot)");
    assert_eq!(snap.description.as_deref(), Some("d"));
    assert!(snap.is_empty());
}

fn add_object(store: &mut Catalog, tags: Vec<(&str, &str)>, state: State) -> ObjectID {
    let object_id = ObjectID::new();
    let version_id = VersionID::new();
    let mut version = Version::new(object_id, None, [1u8; 32], [2u8; 32], test_actor(), 1000, 5, None);
    version.id = version_id;
    version.state = state;
    let mut object = Object::new(ObjectType::Blob, version_id, test_actor());
    object.id = object_id;
    for (key, value) in &tags {
        object.add_tag(Tag::new(key.to_string(), value.to_string(), test_actor()));
    }
    store.store_object(object);
    store.store_version(version);
    for (key, value) in &tags {
        store.add_to_tag_index(&format!("{}:{}", key, value), &object_id.to_bytes());
    }
    object_id
}

#[test]
fn dynamic_views_filter_and_cache() {
    let mut store = Catalog::new();
    let live = add_object(&mut store, vec![("project", "phoenix"), ("sys:trust", "90")], State::Draft);
    let archived = add_object(&mut store, vec![("project", "phoenix")], State::Archived);
    let low = add_object(&mut store, vec![("project", "phoenix"), ("sys:trust", "10")], State::Draft);
    let _other = add_object(&mut store, vec![("project", "apollo")], State::Draft);

    let mut view = DynamicView::new("tag:project:phoenix", &store).unwrap();
    assert_eq!(view.query_string(), "tag:project:phoenix");
    assert_eq!(view.cached_count(), None);
    let first = view.evaluate_at(1_000, 0).unwrap();
    assert_eq!(first.len(), 2);
    assert!(first.contains(&live) && first.contains(&low));
    assert!(!first.contains(&archived));
    assert_eq!(view.cached_count(), Some(2));
    assert!(view.is_cached_at(1_000 + 59_999));
    assert!(!view.is_cached_at(1_000 + 60_000));
    view.invalidate_cache();
    assert_eq!(view.cached_count(), None);

    let config = ViewConfig::default().include_archived().with_min_trust(50);
    let mut strict = DynamicView::new("tag:project:phoenix", &store).unwrap().with_config(config);
    let kept = strict.evaluate_at(0, 0).unwrap();
    // Trust 90 passes, the archived object has the default 75, trust 10 fails.
    assert_eq!(kept.len(), 2);
    assert!(kept.contains(&live) && kept.contains(&archived));

    let capped = ViewConfig::default().include_archived().with_max_results(1);
    let mut one = DynamicView::new("tag:project:phoenix", &store).unwrap().with_config(capped);
    assert_eq!(one.evaluate().unwrap().len(), 1);

    assert!(DynamicView::new(")", &store).is_err());
}

#[test]
fn registry_from_entries_and_snapshot() {
    let e = |p: &str, id: u128| WatchEntry {
        temp_path: p.to_string(),
        object_id: ObjectID::from_uuid(id),
        actor_id: [0u8; 32],
        original_hash: [0u8; 32],
        last_known_hash: [0u8; 32],
        display_name: "d".to_string(),
        registered_at: 0,
    };
    let reg = WatchRegistry::from_entries(vec![e("/a", 1), e("/b", 2), e("/a", 3)]);
    assert_eq!(reg.count(), 2);
    assert_eq!(reg.get("/a").unwrap().object_id, ObjectID::from_uuid(3));
    let snap = reg.snapshot();
    assert_eq!(snap.len(), 2);
}

#[test]
fn test_builtin_projects_view() {
    let mut store = Catalog::new();
    let proj1 = add_object(&mut store, vec![("project", "phoenix")], State::Draft);
    let proj2 = add_object(&mut store, vec![("project", "apollo")], State::Draft);
    let _other = add_object(&mut store, vec![("category", "misc")], State::Draft);

    let builtin = BuiltinViews::new(&store);
    let results = builtin.evaluate(BuiltinView::Projects).unwrap();

    assert_eq!(results.len(), 2);
    assert!(results.contains(&proj1));
    assert!(results.contains(&proj2));
}

#[test]
fn test_builtin_drafts_view() {
    let mut store = Catalog::new();
    let draft = add_object(&mut store, vec![("type", "doc")], State::Draft);
    let _approved = add_object(&mut store, vec![("type", "doc")], State::Approved);

    let builtin = BuiltinViews::new(&store);
    let results = builtin.evaluate(BuiltinView::Drafts).unwrap();

    assert_eq!(results.len(), 1);
    assert!(results.contains(&draft));
}

#[test]
fn test_builtin_view_summary() {
    let mut store = Catalog::new();
    add_object(&mut store, vec![("project", "test")], State::Draft);

    let builtin = BuiltinViews::new(&store);
    let summaries = builtin.summary().unwrap();

    assert_eq!(summaries.len(), BuiltinView::all().len());

    for summary in &summaries {
        assert!(!summary.name.is_empty());
        assert!(!summary.description.is_empty());
    }
    assert_eq!(builtin.count(BuiltinView::Projects).unwrap(), 1);
}
