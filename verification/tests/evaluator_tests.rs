use latticefs::error::LatticeError;
use latticefs::model::link::{Link, LinkType};
use latticefs::model::object::{Object, ObjectID, ObjectType, Version, VersionID};
use latticefs::model::tag::Tag;
use latticefs::query::ast::{Expr, ObjectRef, Predicate, Query};
use latticefs::query::catalog::Catalog;
use latticefs::query::evaluator::QueryEvaluator;
use latticefs::query::parser::parse;

fn test_actor() -> [u8; 32] {
    [0u8; 32]
}

fn create_test_object(store: &mut Catalog, tags: Vec<(&str, &str)>) -> ObjectID {
    let object_id = ObjectID::new();
    let version_id = VersionID::new();
    let mut version = Version::new(object_id, None, [1u8; 32], [2u8; 32], test_actor(), 1000, 5, None);
    version.id = version_id;
    let mut object = Object::new(ObjectType::Blob, version_id, test_actor());
    object.id = object_id;
    for (key, value) in &tags {
        object.add_tag(Tag::new(key.to_string(), value.to_string(), test_actor()));
    }
    store.store_object(object);
    store.store_version(version);
    for (key, value) in &tags {
        store.add_to_tag_index(&format!("{}:{}", key, value), &object_id.to_bytes());
    }
    object_id
}

#[test]
fn test_simple_tag_query() {
    let mut store = Catalog::new();
    let obj1 = create_test_object(&mut store, vec![("project", "phoenix")]);
    let _obj2 = create_test_object(&mut store, vec![("project", "apollo")]);
    let evaluator = QueryEvaluator::new(&store);
    let query = parse("tag:project:phoenix").unwrap();
    let results = evaluator.execute(&query).unwrap();
    assert_eq!(results.len(), 1);
    assert!(results.contains(&obj1));
}

#[test]
fn test_and_query() {
    let mut store = Catalog::new();
    let obj1 = create_test_object(&mut store, vec![("project", "phoenix"), ("priority", "high")]);
    let _obj2 = create_test_object(&mut store, vec![("project", "phoenix")]);
    let evaluator = QueryEvaluator::new(&store);
    let query = parse("tag:project:phoenix AND tag:priority:high").unwrap();
    let results = evaluator.execute(&query).unwrap();
    assert_eq!(results.len(), 1);
    assert!(results.contains(&obj1));
}

#[test]
fn test_or_query() {
    let mut store = Catalog::new();
    let obj1 = create_test_object(&mut store, vec![("project", "phoenix")]);
    let obj2 = create_test_object(&mut store, vec![("project", "apollo")]);
    let evaluator = QueryEvaluator::new(&store);
    let query = parse("tag:project:phoenix OR tag:project:apollo").unwrap();
    let results = evaluator.execute(&query).unwrap();
    assert_eq!(results.len(), 2);
    assert!(results.contains(&obj1));
    assert!(results.contains(&obj2));
}

#[test]
fn test_not_query() {
    let mut store = Catalog::new();
    let _obj1 = create_test_object(&mut store, vec![("project", "phoenix")]);
    let obj2 = create_test_object(&mut store, vec![("project", "apollo")]);
    let evaluator = QueryEvaluator::new(&store);
    let query = parse("NOT tag:project:phoenix").unwrap();
    let results = evaluator.execute(&query).unwrap();
    assert!(results.contains(&obj2));
}

#[test]
fn evaluator_test_limit() {
    let mut store = Catalog::new();
    for i in 0..5 {
        create_test_object(&mut store, vec![("batch", &format!("{}", i))]);
    }
    let evaluator = QueryEvaluator::new(&store);
    let query = parse("tag:batch LIMIT 2").unwrap();
    let results = evaluator.execute(&query).unwrap();
    assert_eq!(results.len(), 2);
}

#[test]
fn test_ref_alias_query() {
    let mut store = Catalog::new();
    let obj1 = create_test_object(&mut store, vec![("project", "phoenix")]);
    store.set_alias("project-readme", &obj1.to_bytes());
    let evaluator = QueryEvaluator::new(&store);
    let query = parse("ref:\"project-readme\"").unwrap();
    let results = evaluator.execute(&query).unwrap();
    assert_eq!(results.len(), 1);
    assert!(results.contains(&obj1));
}

#[test]
fn evaluator_sorts_by_trust_and_keeps_each_once() {
    let mut store = Catalog::new();
    let low = create_test_object(&mut store, vec![("sys:trust", "10"), ("kind", "doc")]);
    let high = create_test_object(&mut store, vec![("sys:trust", "90"), ("kind", "doc")]);
    let mid = create_test_object(&mut store, vec![("kind", "doc")]);
    let evaluator = QueryEvaluator::new(&store);
    let asc = evaluator.execute(&parse("tag:kind SORT trust ASC").unwrap()).unwrap();
    assert_eq!(asc, vec![low, mid, high]);
    let desc = evaluator.execute(&parse("tag:kind SORT trust DESC LIMIT 2").unwrap()).unwrap();
    assert_eq!(desc, vec![high, mid]);
}

#[test]
fn evaluator_state_type_and_time() {
    let mut store = Catalog::new();
    let a = create_test_object(&mut store, vec![("auto:mimetype", "image/png")]);
    let b = create_test_object(&mut store, vec![("auto:mimetype", "text/plain")]);
    store.versions[1].state = latticefs::model::state::State::Approved;
    store.objects[0].created_at = 5_000_000;
    store.objects[1].created_at = 100_000_000;
    let evaluator = QueryEvaluator::new(&store);
    assert_eq!(evaluator.execute(&parse("type:image/*").unwrap()).unwrap(), vec![a]);
    assert_eq!(evaluator.execute(&parse("state:approved").unwrap()).unwrap(), vec![b]);
    let recent = evaluator.execute_at(&parse("created within 1m").unwrap(), 120_000_000).unwrap();
    assert_eq!(recent, vec![b]);
}

#[test]
fn evaluator_references_and_closure() {
    let mut store = Catalog::new();
    let a = create_test_object(&mut store, vec![]);
    let b = create_test_object(&mut store, vec![]);
    let c = create_test_object(&mut store, vec![]);
    store.objects[0].add_link(Link::new(a.to_bytes().to_vec(), b.to_bytes().to_vec(), LinkType::References, test_actor()));
    store.objects[1].add_link(Link::new(b.to_bytes().to_vec(), c.to_bytes().to_vec(), LinkType::BelongsTo, test_actor()));
    let evaluator = QueryEvaluator::new(&store);
    let refs = Query::new(Expr::predicate(Predicate::References { target: ObjectRef::Id(b) }));
    assert_eq!(evaluator.execute(&refs).unwrap(), vec![a]);
    let clo = Query::new(Expr::predicate(Predicate::Closure { root: ObjectRef::Id(a) }));
    let mut got = evaluator.execute(&clo).unwrap();
    got.sort_by_key(|x| x.0);
    let mut want = vec![a, b, c];
    want.sort_by_key(|x| x.0);
    assert_eq!(got, want);
    store.aliases.push(("bad".to_string(), vec![0u8; 3]));
    let evaluator = QueryEvaluator::new(&store);
    let err = evaluator.execute(&parse("ref:\"bad\"").unwrap()).unwrap_err();
    assert_eq!(err, LatticeError::Serialization("Invalid alias object id length: 3".to_string()));
}

#[test]
fn catalog_reads_back_what_was_stored() {
    let mut store = Catalog::new();
    let id = create_test_object(&mut store, vec![("a", "b")]);
    let mut again = store.load_object(&id).unwrap().clone();
    again.add_tag(Tag::new("c".to_string(), "d".to_string(), test_actor()));
    store.store_object(again);
    assert_eq!(store.objects.len(), 1);
    assert_eq!(store.load_object(&id).unwrap().tags.len(), 2);
    store.set_alias("x", &[1, 2]);
    store.set_alias("x", &id.to_bytes());
    assert_eq!(store.resolve_alias("x").unwrap(), Some(id));
    store.add_to_tag_index("a:b", &id.to_bytes());
    assert_eq!(store.query_by_tag("a:b").len(), 1);
    assert_eq!(store.query_by_tag("none").len(), 0);
}
