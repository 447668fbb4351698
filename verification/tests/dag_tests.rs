use latticefs::error::LatticeError;
use latticefs::model::dag::VersionDAG;
use latticefs::model::object::{ObjectID, Version, VersionID};
use latticefs::query::catalog::Catalog;

fn test_actor() -> [u8; 32] {
    [0u8; 32]
}

fn test_hash() -> [u8; 32] {
    [1u8; 32]
}

fn create_test_version(object_id: ObjectID, parent: Option<VersionID>) -> Version {
    Version::new(object_id, parent, test_hash(), test_hash(), test_actor(), 1000, 5, None)
}

fn chain() -> (Catalog, Version, Version, Version) {
    let object_id = ObjectID::new();
    let v1 = create_test_version(object_id, None);
    let v2 = create_test_version(object_id, Some(v1.id));
    let v3 = create_test_version(object_id, Some(v2.id));
    let mut store = Catalog::new();
    store.versions.push(v1.clone());
    store.versions.push(v2.clone());
    store.versions.push(v3.clone());
    (store, v1, v2, v3)
}

#[test]
fn test_is_ancestor_linear_chain() {
    let (store, v1, v2, v3) = chain();
    let dag = VersionDAG::new(&store);
    assert!(dag.is_ancestor(v1.id, v2.id).unwrap());
    assert!(dag.is_ancestor(v1.id, v3.id).unwrap());
    assert!(dag.is_ancestor(v2.id, v3.id).unwrap());
    assert!(!dag.is_ancestor(v3.id, v1.id).unwrap());
    assert!(!dag.is_ancestor(v3.id, v2.id).unwrap());
    assert!(!dag.is_ancestor(v1.id, v1.id).unwrap());
}

#[test]
fn test_ancestors() {
    let (store, v1, v2, v3) = chain();
    let dag = VersionDAG::new(&store);
    assert!(dag.ancestors(v1.id).unwrap().is_empty());
    assert_eq!(dag.ancestors(v2.id).unwrap(), vec![v1.id]);
    assert_eq!(dag.ancestors(v3.id).unwrap(), vec![v2.id, v1.id]);
}

#[test]
fn test_verify_acyclic_valid() {
    let object_id = ObjectID::new();
    let v1 = create_test_version(object_id, None);
    let mut store = Catalog::new();
    store.versions.push(v1.clone());
    let dag = VersionDAG::new(&store);
    let new_version_id = VersionID::new();
    assert!(dag.verify_acyclic(new_version_id, Some(v1.id)).is_ok());
    assert!(dag.verify_acyclic(new_version_id, None).is_ok());
}

#[test]
fn test_verify_acyclic_self_parent() {
    let store = Catalog::new();
    let dag = VersionDAG::new(&store);
    let version_id = VersionID::new();
    let result = dag.verify_acyclic(version_id, Some(version_id));
    assert!(matches!(result, Err(LatticeError::CyclicVersion)));
}

#[test]
fn test_topological_sort_linear() {
    let (store, v1, v2, v3) = chain();
    let dag = VersionDAG::new(&store);
    let versions = vec![v3.id, v1.id, v2.id];
    let sorted = dag.topological_sort(&versions).unwrap();
    assert_eq!(sorted.len(), 3);
    let pos_v1 = sorted.iter().position(|&v| v == v1.id).unwrap();
    let pos_v2 = sorted.iter().position(|&v| v == v2.id).unwrap();
    let pos_v3 = sorted.iter().position(|&v| v == v3.id).unwrap();
    assert!(pos_v1 < pos_v2);
    assert!(pos_v2 < pos_v3);
}

#[test]
fn test_common_ancestor() {
    let object_id = ObjectID::new();
    let v1 = create_test_version(object_id, None);
    let v2 = create_test_version(object_id, Some(v1.id));
    let v3 = create_test_version(object_id, Some(v2.id));
    let v4 = create_test_version(object_id, Some(v2.id));
    let mut store = Catalog::new();
    for v in [&v1, &v2, &v3, &v4] {
        store.versions.push((*v).clone());
    }
    let dag = VersionDAG::new(&store);
    assert_eq!(dag.common_ancestor(v3.id, v4.id).unwrap(), Some(v2.id));
    assert_eq!(dag.common_ancestor(v2.id, v3.id).unwrap(), Some(v2.id));
    assert_eq!(dag.common_ancestor(v1.id, v4.id).unwrap(), Some(v1.id));
}

#[test]
fn test_depth() {
    let (store, v1, v2, v3) = chain();
    let dag = VersionDAG::new(&store);
    assert_eq!(dag.depth(v1.id).unwrap(), 0);
    assert_eq!(dag.depth(v2.id).unwrap(), 1);
    assert_eq!(dag.depth(v3.id).unwrap(), 2);
}

#[test]
fn test_topological_sort_empty() {
    let store = Catalog::new();
    let dag = VersionDAG::new(&store);
    let sorted = dag.topological_sort(&[]).unwrap();
    assert!(sorted.is_empty());
}

#[test]
fn dag_cycles_and_missing_versions() {
    let object_id = ObjectID::new();
    let mut a = create_test_version(object_id, None);
    let mut b = create_test_version(object_id, Some(a.id));
    a.parent_version = Some(b.id);
    b.parent_version = Some(a.id);
    let mut store = Catalog::new();
    store.versions.push(a.clone());
    store.versions.push(b.clone());
    let dag = VersionDAG::new(&store);
    assert_eq!(dag.ancestors(a.id).unwrap_err(), LatticeError::CyclicVersion);
    assert_eq!(dag.topological_sort(&[a.id, b.id]).unwrap_err(), LatticeError::CyclicVersion);
    let missing = VersionID::from_uuid(1);
    assert_eq!(
        dag.ancestors(missing).unwrap_err(),
        LatticeError::VersionNotFound { id: "00000000000000000000000000000001".to_string() }
    );
    let (store, v1, _v2, _v3) = chain();
    let dag = VersionDAG::new(&store);
    assert_eq!(dag.topological_sort(&[v1.id, v1.id]).unwrap_err(), LatticeError::CyclicVersion);
    assert_eq!(dag.common_ancestor(v1.id, VersionID::from_uuid(9)).unwrap_err(), LatticeError::VersionNotFound {
        id: "00000000000000000000000000000009".to_string()
    });
}

#[test]
fn dag_descendants_of_an_object() {
    let (store, v1, v2, v3) = chain();
    let dag = VersionDAG::new(&store);
    let object_id = store.versions[0].object_id;
    assert_eq!(dag.descendants(v1.id, object_id).unwrap(), vec![v2.id, v3.id]);
    assert_eq!(dag.descendants(v3.id, object_id).unwrap(), Vec::<VersionID>::new());
    assert_eq!(dag.descendants(v1.id, ObjectID::from_uuid(3)).unwrap(), Vec::<VersionID>::new());
}

#[test]
fn test_topological_sort_through_unlisted_version() {
    let (store, v1, _v2, v3) = chain();
    let dag = VersionDAG::new(&store);
    let sorted = dag.topological_sort(&[v3.id, v1.id]).unwrap();
    assert_eq!(sorted, vec![v1.id, v3.id]);
}
