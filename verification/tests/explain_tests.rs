use latticefs::error::LatticeError;
use latticefs::model::link::{Link, LinkType};
use latticefs::model::object::{Object, ObjectID, ObjectType, Version, VersionID};
use latticefs::model::state::State;
use latticefs::model::tag::Tag;
use latticefs::query::ast::{Expr, ObjectRef, Predicate, Query};
use latticefs::query::catalog::Catalog;
use latticefs::query::explain::{Explainer, Reason};
use latticefs::query::parser::parse;

fn test_actor() -> [u8; 32] {
    [0u8; 32]
}

fn create_test_object(store: &mut Catalog, tags: Vec<(&str, &str)>) -> ObjectID {
    let object_id = ObjectID::new();
    let version_id = VersionID::new();
    let mut version = Version::new(object_id, None, [1u8; 32], [2u8; 32], test_actor(), 1000, 5, None);
    version.id = version_id;
    let mut object = Object::new(ObjectType::Blob, version_id, test_actor());
    object.id = object_id;
    for (key, value) in tags {
        object.add_tag(Tag::new(key.to_string(), value.to_string(), test_actor()));
    }
    store.objects.push(object);
    store.versions.push(version);
    object_id
}

fn predicate_parts(r: &Reason) -> (bool, String, Option<String>) {
    match r {
        Reason::Predicate { matched, description, actual_value } => (*matched, description.clone(), actual_value.clone()),
        _ => panic!("expected a predicate reason"),
    }
}

#[test]
fn test_explain_matching_tag() {
    let mut store = Catalog::new();
    let object_id = create_test_object(&mut store, vec![("project", "phoenix")]);
    let explainer = Explainer::new(&store);
    let query = parse("tag:project:phoenix").unwrap();
    let explanation = explainer.explain(&object_id, &query).unwrap();
    assert!(explanation.matched);
    println!("{}", explanation.to_string());
}

#[test]
fn test_explain_non_matching_tag() {
    let mut store = Catalog::new();
    let object_id = create_test_object(&mut store, vec![("project", "apollo")]);
    let explainer = Explainer::new(&store);
    let query = parse("tag:project:phoenix").unwrap();
    let explanation = explainer.explain(&object_id, &query).unwrap();
    assert!(!explanation.matched);
    println!("{}", explanation.to_string());
}

#[test]
fn test_explain_and_expression() {
    let mut store = Catalog::new();
    let object_id = create_test_object(&mut store, vec![("project", "phoenix"), ("priority", "high")]);
    let explainer = Explainer::new(&store);
    let query = parse("tag:project:phoenix AND tag:priority:high").unwrap();
    let explanation = explainer.explain(&object_id, &query).unwrap();
    assert!(explanation.matched);
    println!("{}", explanation.to_string());
}

#[test]
fn test_explain_partial_and() {
    let mut store = Catalog::new();
    let object_id = create_test_object(&mut store, vec![("project", "phoenix")]);
    let explainer = Explainer::new(&store);
    let query = parse("tag:project:phoenix AND tag:priority:high").unwrap();
    let explanation = explainer.explain(&object_id, &query).unwrap();
    assert!(!explanation.matched);
    println!("{}", explanation.to_string());
}

#[test]
fn test_explain_or_expression() {
    let mut store = Catalog::new();
    let object_id = create_test_object(&mut store, vec![("project", "apollo")]);
    let explainer = Explainer::new(&store);
    let query = parse("tag:project:phoenix OR tag:project:apollo").unwrap();
    let explanation = explainer.explain(&object_id, &query).unwrap();
    assert!(explanation.matched);
    println!("{}", explanation.to_string());
}

#[test]
fn test_explain_not_expression() {
    let mut store = Catalog::new();
    let object_id = create_test_object(&mut store, vec![("project", "apollo")]);
    let explainer = Explainer::new(&store);
    let query = parse("NOT tag:project:phoenix").unwrap();
    let explanation = explainer.explain(&object_id, &query).unwrap();
    assert!(explanation.matched);
    println!("{}", explanation.to_string());
}

#[test]
fn test_explain_display() {
    let mut store = Catalog::new();
    let object_id = create_test_object(&mut store, vec![("project", "phoenix"), ("status", "active")]);
    let explainer = Explainer::new(&store);
    let query = parse("tag:project:phoenix AND NOT tag:deleted").unwrap();
    let explanation = explainer.explain(&object_id, &query).unwrap();
    let output = explanation.to_string();
    assert!(output.contains("MATCHED"));
    assert!(output.contains("AND"));
    assert!(output.contains("NOT"));
}

#[test]
fn explain_tag_reason_texts() {
    let mut store = Catalog::new();
    let id = create_test_object(&mut store, vec![("project", "phoenix"), ("project", "apollo")]);
    let explainer = Explainer::new(&store);
    let hit = explainer.explain(&id, &parse("tag:project").unwrap()).unwrap();
    assert_eq!(
        predicate_parts(&hit.reason),
        (true, "tag:project".to_string(), Some("project:phoenix, project:apollo".to_string()))
    );
    let miss = explainer.explain(&id, &parse("tag:proj").unwrap()).unwrap();
    assert_eq!(
        predicate_parts(&miss.reason),
        (false, "tag:proj".to_string(), Some("tags: project:phoenix, project:apollo".to_string()))
    );
    let bare = create_test_object(&mut store, vec![]);
    let explainer = Explainer::new(&store);
    let none = explainer.explain(&bare, &parse("tag:x").unwrap()).unwrap();
    assert_eq!(predicate_parts(&none.reason), (false, "tag:x".to_string(), Some("no tags".to_string())));
}

#[test]
fn explain_type_trust_and_state() {
    let mut store = Catalog::new();
    let id = create_test_object(&mut store, vec![("auto:mimetype", "image/png"), ("sys:trust", "40")]);
    let explainer = Explainer::new(&store);
    let t = explainer.explain(&id, &parse("type:image/*").unwrap()).unwrap();
    assert_eq!(predicate_parts(&t.reason), (true, "type:image/*".to_string(), Some("image/png".to_string())));
    let tr = explainer.explain(&id, &parse("trust >= trusted").unwrap()).unwrap();
    assert_eq!(predicate_parts(&tr.reason), (false, "trust >= trusted".to_string(), Some("40".to_string())));
    let st = explainer.explain(&id, &parse("state:draft").unwrap()).unwrap();
    assert_eq!(predicate_parts(&st.reason), (true, "state:Draft".to_string(), Some("Draft".to_string())));
    let other = create_test_object(&mut store, vec![]);
    let explainer = Explainer::new(&store);
    let t2 = explainer.explain(&other, &parse("type:image/png").unwrap()).unwrap();
    assert_eq!(predicate_parts(&t2.reason), (false, "type:image/png".to_string(), Some("no mimetype".to_string())));
    let tr2 = explainer.explain(&other, &parse("trust = 75").unwrap()).unwrap();
    assert_eq!(predicate_parts(&tr2.reason), (true, "trust = 75".to_string(), Some("75".to_string())));
}

#[test]
fn explain_time_at_fixed_now() {
    let mut store = Catalog::new();
    let id = create_test_object(&mut store, vec![]);
    store.objects[0].created_at = 1_000_000_000;
    let explainer = Explainer::new(&store);
    let now = 1_000_000_000 + 3 * 3_600_000_000;
    let q = parse("created within 1d").unwrap();
    let e = explainer.explain_at(&id, &q, now).unwrap();
    assert_eq!(
        predicate_parts(&e.reason),
        (true, "created within Duration(86400s)".to_string(), Some("3h ago".to_string()))
    );
    let q2 = parse("created within 1h").unwrap();
    let e2 = explainer.explain_at(&id, &q2, now).unwrap();
    assert!(!e2.matched);
    let e3 = explainer.explain_at(&id, &q, 1_000_000_000 - 5_000_000).unwrap();
    assert_eq!(predicate_parts(&e3.reason).2, Some("-5s ago".to_string()));
}

#[test]
fn explain_refs_aliases_and_closure() {
    let mut store = Catalog::new();
    let a = create_test_object(&mut store, vec![]);
    let b = create_test_object(&mut store, vec![]);
    let link = Link::new(a.to_bytes().to_vec(), b.to_bytes().to_vec(), LinkType::References, test_actor());
    store.objects[0].add_link(link);
    store.aliases.push(("main".to_string(), a.to_bytes().to_vec()));
    store.aliases.push(("broken".to_string(), vec![1, 2, 3]));
    let explainer = Explainer::new(&store);

    let r = explainer.explain(&a, &parse("ref:\"main\"").unwrap()).unwrap();
    assert_eq!(predicate_parts(&r.reason), (true, "ref:\"main\"".to_string(), Some(a.to_string())));

    let bad = explainer.explain(&a, &parse("ref:\"broken\"").unwrap());
    assert_eq!(bad.unwrap_err(), LatticeError::Serialization("Invalid alias object id length: 3".to_string()));

    let q = Query::new(Expr::predicate(Predicate::References { target: ObjectRef::Id(b) }));
    let refs = explainer.explain(&a, &q).unwrap();
    let (m, d, act) = predicate_parts(&refs.reason);
    assert!(m);
    assert_eq!(d, format!("references({})", b.to_string()));
    assert_eq!(act, Some(format!("links to: {}", &b.to_string()[..8])));

    let q = Query::new(Expr::predicate(Predicate::Closure { root: ObjectRef::Id(a) }));
    let c = explainer.explain(&b, &q).unwrap();
    assert_eq!(predicate_parts(&c.reason), (true, format!("closure({})", a.to_string()), Some("closure size: 2".to_string())));

    let missing = ObjectID::from_uuid(7);
    let err = explainer.explain(&missing, &parse("tag:x").unwrap()).unwrap_err();
    assert_eq!(err, LatticeError::ObjectNotFound { id: "00000000000000000000000000000007".to_string() });
}

#[test]
fn explain_closure_depth_limit() {
    let mut store = Catalog::new();
    let mut ids = Vec::new();
    for _ in 0..11 {
        ids.push(create_test_object(&mut store, vec![]));
    }
    for i in 0..10 {
        let link = Link::new(ids[i].to_bytes().to_vec(), ids[i + 1].to_bytes().to_vec(), LinkType::DerivedFrom, test_actor());
        store.objects[i].add_link(link);
    }
    let explainer = Explainer::new(&store);
    let q = Query::new(Expr::predicate(Predicate::Closure { root: ObjectRef::Id(ids[0]) }));
    let err = explainer.explain(&ids[0], &q).unwrap_err();
    assert_eq!(err, LatticeError::TraversalDepthExceeded { max: 10 });
    assert_eq!(store.closure(&ObjectRef::Id(ids[2])).unwrap().len(), 9);
    let _ = State::Draft;
}
