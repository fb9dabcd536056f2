use oax::collect::Session;
use oax::model::Components;
use oax::model::Method;
use oax::model::Param;
use oax::model::ParamKind;
use oax::model::Rpc;
use oax::model::Rpcs;
use oax::model::Schema;
use oax::model::SchemaKind;
use oax::model::Spec;
use oax::request::build_from_assignments;
use oax::request::build_url;
use oax::request::AssignError;
use oax::request::extract_base_url;
use oax::value::Scalar;
use oax::value::Value;

fn kind(k: &str) -> Schema {
    Schema {
        ptr: None,
        kind: Some(SchemaKind::Single(k.to_string())),
        items: None,
        variants: None,
        pattern: None,
    }
}

fn param(name: &str, loc: ParamKind, required: bool, schema: Schema) -> Param {
    Param { name: name.to_string(), kind: loc, required, schema }
}

fn only_get(rpc: Rpc) -> Rpcs {
    Rpcs {
        get: Some(rpc),
        post: None,
        put: None,
        delete: None,
        options: None,
        head: None,
        patch: None,
        trace: None,
    }
}

fn items_spec() -> Spec {
    let params = vec![
        param("id", ParamKind::Path, true, kind("integer")),
        param("verbose", ParamKind::Query, false, kind("boolean")),
    ];
    let rpc = Rpc { summ: Some("One item".to_string()), deprecated: false, params };
    Spec { rpcs: vec![("/items/{id}".to_string(), only_get(rpc))], comps: Components { schemas: vec![] } }
}

#[test]
fn path_substitution() {
    let params = vec![param("id", ParamKind::Path, true, kind("integer"))];
    let values = vec![Some(Value::One(Scalar::Int(42)))];
    assert_eq!(build_url("/users/{id}", &values, &params), "/users/42");
}

#[test]
fn query_array_expansion() {
    let params = vec![
        param("id", ParamKind::Path, true, kind("integer")),
        param("tag", ParamKind::Query, false, kind("array")),
    ];
    let values = vec![
        Some(Value::One(Scalar::Int(42))),
        Some(Value::Many(vec![Scalar::Str("a".to_string()), Scalar::Str("b".to_string())])),
    ];
    assert_eq!(build_url("/users/{id}", &values, &params), "/users/42?tag=a&tag=b");
}

#[test]
fn empty_array_adds_no_pair() {
    let params = vec![param("tag", ParamKind::Query, false, kind("array"))];
    let values = vec![Some(Value::Many(vec![]))];
    assert_eq!(build_url("/users", &values, &params), "/users");
}

#[test]
fn scalars_render_plainly() {
    let params = vec![
        param("n", ParamKind::Query, true, kind("integer")),
        param("b", ParamKind::Query, true, kind("boolean")),
        param("s", ParamKind::Query, true, kind("string")),
        param("z", ParamKind::Query, false, kind("null")),
        param("h", ParamKind::Header, true, kind("string")),
        param("c", ParamKind::Cookie, true, kind("string")),
        param("u", ParamKind::Query, false, kind("string")),
    ];
    let values = vec![
        Some(Value::One(Scalar::Int(-9_223_372_036_854_775_808))),
        Some(Value::One(Scalar::Bool(false))),
        Some(Value::One(Scalar::Str("x y".to_string()))),
        Some(Value::One(Scalar::Null)),
        Some(Value::One(Scalar::Str("hidden".to_string()))),
        Some(Value::One(Scalar::Str("crumb".to_string()))),
        None,
    ];
    assert_eq!(
        build_url("/q", &values, &params),
        "/q?n=-9223372036854775808&b=false&s=x y&z=null"
    );
}

#[test]
fn every_placeholder_is_filled() {
    let params = vec![
        param("a", ParamKind::Path, true, kind("integer")),
        param("b", ParamKind::Path, true, kind("string")),
    ];
    let values = vec![Some(Value::One(Scalar::Int(1070))), Some(Value::One(Scalar::Str("x".to_string())))];
    assert_eq!(build_url("/{a}/{b}/{a}", &values, &params), "/1070/x/1070");
}

#[test]
fn end_to_end_get_item() {
    let spec = items_spec();
    assert!(spec.is_defined("/items/{id}", Method::Get));
    let rpc = spec.find_rpc("/items/{id}", Method::Get).unwrap();
    let mut session = Session::new(&spec, &rpc.params);
    assert_eq!(session.values, vec![Some(Value::One(Scalar::Int(0))), None]);
    let id_schema = spec.traverse_schema(&rpc.params[0].schema).unwrap();
    session.enter_text(0, id_schema, "7");
    assert_eq!(build_url("/items/{id}", &session.values, &rpc.params), "/items/7");
    session.store(1, Some(Value::One(Scalar::Bool(true))));
    let values = session.finish();
    assert_eq!(build_url("/items/{id}", &values, &rpc.params), "/items/7?verbose=true");
}

#[test]
fn absent_pair_is_not_defined() {
    let spec = items_spec();
    assert!(!spec.is_defined("/items/{id}", Method::Post));
    assert!(!spec.is_defined("/users", Method::Get));
    assert!(spec.find_rpc("/items/{id}", Method::Delete).is_none());
}

#[test]
fn base_url_is_scheme_and_host() {
    assert_eq!(
        extract_base_url("https://api.example.com:8080/docs/openapi.json"),
        Some("https://api.example.com:8080")
    );
    assert_eq!(extract_base_url("https://api.example.com"), None);
    assert_eq!(extract_base_url("api.example.com/docs"), None);
}

fn assignment_params() -> Vec<Param> {
    vec![
        param("id", ParamKind::Path, true, kind("integer")),
        param("tag", ParamKind::Query, false, kind("string")),
        param("page", ParamKind::Query, false, kind("integer")),
        param("auth", ParamKind::Header, false, kind("string")),
    ]
}

fn texts(v: &[&str]) -> Vec<String> {
    v.iter().map(|s| s.to_string()).collect()
}

#[test]
fn assignments_fill_path_and_query_in_order() {
    let params = assignment_params();
    let got = build_from_assignments(
        "/users/{id}",
        &params,
        &texts(&["tag=a", "id=42", "page=2", "auth=t=k", "tag=b"]),
    );
    assert_eq!(got, Ok("/users/42?tag=a&page=2&tag=b".to_string()));
    assert_eq!(build_from_assignments("/users/{id}", &params, &texts(&["id=7"])), Ok("/users/7".to_string()));
    assert_eq!(build_from_assignments("/users", &params, &texts(&["tag=x=y"])), Ok("/users?tag=x=y".to_string()));
}

#[test]
fn assignment_errors() {
    let params = assignment_params();
    assert_eq!(
        build_from_assignments("/users/{id}", &params, &texts(&["id=1", "tag"])),
        Err(AssignError::Malformed(1))
    );
    assert_eq!(
        build_from_assignments("/users/{id}", &params, &texts(&["color=red", "tag"])),
        Err(AssignError::UnknownParam(0))
    );
}
