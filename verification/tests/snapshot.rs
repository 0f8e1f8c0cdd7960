use std::collections::HashMap;

use quartzite::ids::ObjectId;
use quartzite::object_tree::{ObjectBase, ObjectTree};
use quartzite::snapshot::{capture_props, record_restored_id, remap_value, PropValue};

type Value = PropValue<String, i64>;

#[test]
fn remap_value_rewrites_object() {
    let mut remap = HashMap::new();
    remap.insert(10u64, 99u64);
    let (val, changed) = remap_value(Value::Object(10), &remap);
    assert!(changed);
    assert_eq!(val, Value::Object(99));
}

#[test]
fn remap_value_rewrites_nested_list() {
    let mut remap = HashMap::new();
    remap.insert(5u64, 42u64);
    let (val, changed) = remap_value(Value::List(vec![Value::Object(5), Value::Other(1)]), &remap);
    assert!(changed);
    match val {
        PropValue::List(items) => {
            assert_eq!(items[0], Value::Object(42));
            assert_eq!(items[1], Value::Other(1));
        },
        _ => panic!("shape changed"),
    }
}

#[test]
fn remap_value_rewrites_nested_map() {
    let mut remap = HashMap::new();
    remap.insert(7u64, 77u64);
    let (val, changed) = remap_value(Value::Dict(vec![("k".to_string(), Value::Object(7))]), &remap);
    assert!(changed);
    assert_eq!(val, Value::Dict(vec![("k".to_string(), Value::Object(77))]));
}

#[test]
fn remap_value_unknown_id_unchanged() {
    let remap: HashMap<u64, u64> = HashMap::new();
    let (val, changed) = remap_value(Value::Object(99), &remap);
    assert!(!changed);
    assert_eq!(val, Value::Object(99));
}

#[test]
fn remap_value_deep_nesting_keeps_shape() {
    let mut remap = HashMap::new();
    remap.insert(1u64, 2u64);
    let input = Value::List(vec![
        Value::Dict(vec![("a".to_string(), Value::List(vec![Value::Object(1), Value::Object(3)]))]),
        Value::Other(5),
    ]);
    let expected = Value::List(vec![
        Value::Dict(vec![("a".to_string(), Value::List(vec![Value::Object(2), Value::Object(3)]))]),
        Value::Other(5),
    ]);
    let (val, changed) = remap_value(input, &remap);
    assert!(changed);
    assert_eq!(val, expected);
}

#[test]
fn remap_value_without_references_reports_no_change() {
    let mut remap = HashMap::new();
    remap.insert(1u64, 2u64);
    let (val, changed) = remap_value(Value::List(vec![Value::Other(1), Value::Object(9)]), &remap);
    assert!(!changed);
    assert_eq!(val, Value::List(vec![Value::Other(1), Value::Object(9)]));
}

#[test]
fn record_restored_id_skips_untracked_objects() {
    let mut remap = HashMap::new();
    record_restored_id(&mut remap, 0, ObjectId(5));
    assert!(remap.is_empty());
    record_restored_id(&mut remap, 3, ObjectId(5));
    assert_eq!(remap.get(&3), Some(&5));
}

#[test]
fn collect_ids_is_pre_order() {
    let mut tree = ObjectTree::new();
    let root = tree.insert(ObjectBase::new(ObjectId(1)), None);
    let a = tree.insert(ObjectBase::new(ObjectId(2)), Some(root));
    let b = tree.insert(ObjectBase::new(ObjectId(3)), Some(root));
    let a1 = tree.insert(ObjectBase::new(ObjectId(4)), Some(a));
    let b1 = tree.insert(ObjectBase::new(ObjectId(5)), Some(b));
    assert_eq!(tree.collect_ids(root), vec![root, a, a1, b, b1]);
    assert_eq!(tree.collect_ids(b), vec![b, b1]);
}

#[test]
fn capture_object_excludes_non_stored() {
    let props = vec![
        ("count".to_string(), true, Some(3i64)),
        ("cache".to_string(), false, None),
        ("name".to_string(), true, Some(7i64)),
    ];
    assert_eq!(capture_props(props), Ok(vec![("count".to_string(), 3), ("name".to_string(), 7)]));
}

#[test]
fn capture_object_returns_property_missing_when_read_returns_none() {
    let props = vec![
        ("count".to_string(), true, Some(3i64)),
        ("ghost".to_string(), true, None),
        ("late".to_string(), true, None),
    ];
    assert_eq!(capture_props(props), Err("ghost".to_string()));
}

#[test]
fn capture_of_no_properties_is_empty() {
    let props: Vec<(String, bool, Option<i64>)> = Vec::new();
    assert_eq!(capture_props(props), Ok(Vec::new()));
}
