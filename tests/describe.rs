use oax::model::Components;
use oax::model::Schema;
use oax::model::SchemaKind;
use oax::model::Spec;

fn empty_schema() -> Schema {
    Schema { ptr: None, kind: None, items: None, variants: None, pattern: None }
}

fn kind(k: &str) -> Schema {
    Schema { kind: Some(SchemaKind::Single(k.to_string())), ..empty_schema() }
}

fn pointer(name: &str) -> Schema {
    Schema { ptr: Some(format!("#/components/schemas/{name}")), ..empty_schema() }
}

fn spec_with(schemas: Vec<(String, Schema)>) -> Spec {
    Spec { rpcs: vec![], comps: Components { schemas } }
}

#[test]
fn variants_beat_kind() {
    let spec = spec_with(vec![]);
    let s = Schema {
        kind: Some(SchemaKind::Single("string".to_string())),
        variants: Some(vec!["a".to_string(), "b".to_string()]),
        ..empty_schema()
    };
    assert_eq!(spec.describe_schema(&s), "a|b");
}

#[test]
fn array_of_integer() {
    let spec = spec_with(vec![]);
    let s = Schema { items: Some(Box::new(kind("integer"))), ..kind("array") };
    assert_eq!(spec.describe_schema(&s), "array<int>");
}

#[test]
fn nested_arrays_and_aliases() {
    let spec = spec_with(vec![]);
    let inner = Schema { items: Some(Box::new(kind("string"))), ..kind("array") };
    let s = Schema { items: Some(Box::new(inner)), ..kind("array") };
    assert_eq!(spec.describe_schema(&s), "array<array<str>>");
    assert_eq!(spec.describe_schema(&kind("boolean")), "bool");
    assert_eq!(spec.describe_schema(&kind("number")), "number");
}

#[test]
fn array_without_items() {
    let spec = spec_with(vec![]);
    assert_eq!(spec.describe_schema(&kind("array")), "array<unknown>");
}

#[test]
fn pattern_beats_kind() {
    let spec = spec_with(vec![]);
    let s = Schema { pattern: Some("[a-z]+".to_string()), ..kind("string") };
    assert_eq!(spec.describe_schema(&s), "regex<[a-z]+>");
}

#[test]
fn union_kind_is_joined() {
    let spec = spec_with(vec![]);
    let s = Schema {
        kind: Some(SchemaKind::Multiple(vec!["string".to_string(), "null".to_string()])),
        ..empty_schema()
    };
    assert_eq!(spec.describe_schema(&s), "string|null");
}

#[test]
fn nothing_known_is_unknown() {
    let spec = spec_with(vec![]);
    assert_eq!(spec.describe_schema(&empty_schema()), "unknown");
}

#[test]
fn pointer_is_followed() {
    let spec = spec_with(vec![
        ("Id".to_string(), pointer("Num")),
        ("Num".to_string(), kind("integer")),
    ]);
    assert_eq!(spec.describe_schema(&pointer("Id")), "int");
    let id = pointer("Id");
    let r = spec.traverse_schema(&id).unwrap();
    assert!(r.ptr.is_none());
    assert!(matches!(&r.kind, Some(SchemaKind::Single(k)) if k == "integer"));
}

#[test]
fn missing_pointer_target_fails() {
    let spec = spec_with(vec![("Num".to_string(), kind("integer"))]);
    assert!(spec.traverse_schema(&pointer("Other")).is_none());
    let bad = Schema { ptr: Some("#/elsewhere/Num".to_string()), ..empty_schema() };
    assert!(spec.traverse_schema(&bad).is_none());
    assert_eq!(spec.describe_schema(&pointer("Other")), "unknown");
}

#[test]
fn cyclic_pointers_fail() {
    let spec = spec_with(vec![
        ("A".to_string(), pointer("B")),
        ("B".to_string(), pointer("A")),
    ]);
    assert!(spec.traverse_schema(&pointer("A")).is_none());
    let own = spec_with(vec![("Me".to_string(), pointer("Me"))]);
    assert!(own.traverse_schema(&pointer("Me")).is_none());
    assert_eq!(own.describe_schema(&pointer("Me")), "unknown");
}

#[test]
fn cyclic_array_items_end() {
    let node = Schema { items: Some(Box::new(pointer("Node"))), ..kind("array") };
    let spec = spec_with(vec![("Node".to_string(), node)]);
    let d = spec.describe_schema(&pointer("Node"));
    assert!(d.starts_with("array<array<"));
    assert!(d.contains("unknown"));
}

#[test]
fn describe_twice_is_same() {
    let spec = spec_with(vec![("Num".to_string(), kind("integer"))]);
    let s = Schema { items: Some(Box::new(pointer("Num"))), ..kind("array") };
    assert_eq!(spec.describe_schema(&s), spec.describe_schema(&s));
}
