use oax::listing::endpoint_candidates;
use oax::listing::param_candidates;
use oax::listing::rpc_actions;
use oax::listing::Candidate;
use oax::listing::RpcAction;
use oax::model::Components;
use oax::model::Method;
use oax::model::Param;
use oax::model::ParamKind;
use oax::model::Rpc;
use oax::model::Rpcs;
use oax::model::Schema;
use oax::model::SchemaKind;
use oax::model::Spec;

fn rpc(summ: Option<&str>, deprecated: bool, params: Vec<Param>) -> Rpc {
    Rpc { summ: summ.map(|s| s.to_string()), deprecated, params }
}

fn none() -> Rpcs {
    Rpcs { get: None, post: None, put: None, delete: None, options: None, head: None, patch: None, trace: None }
}

fn int_param(name: &str, required: bool) -> Param {
    Param {
        name: name.to_string(),
        kind: ParamKind::Query,
        required,
        schema: Schema {
            ptr: None,
            kind: Some(SchemaKind::Single("integer".to_string())),
            items: None,
            variants: None,
            pattern: None,
        },
    }
}

fn sample() -> Spec {
    let users = Rpcs {
        get: Some(rpc(Some("List users"), false, vec![int_param("limit", false), int_param("page", true)])),
        trace: Some(rpc(None, true, vec![])),
        post: Some(rpc(Some("Add user"), false, vec![])),
        ..none()
    };
    let items = Rpcs { get: Some(rpc(None, true, vec![])), ..none() };
    Spec {
        rpcs: vec![("/users".to_string(), users), ("/items".to_string(), items)],
        comps: Components { schemas: vec![] },
    }
}

#[test]
fn every_defined_operation_is_listed() {
    let acts = rpc_actions(&sample());
    let got: Vec<(Method, String)> = acts.into_iter().map(|a| (a.method, a.endpoint)).collect();
    assert_eq!(
        got,
        vec![
            (Method::Get, "/users".to_string()),
            (Method::Post, "/users".to_string()),
            (Method::Trace, "/users".to_string()),
            (Method::Get, "/items".to_string()),
        ]
    );
    let a = RpcAction::new(Method::Head, "/x".to_string());
    assert_eq!(a.method, Method::Head);
    assert_eq!(a.endpoint, "/x");
}

#[test]
fn endpoints_complete_by_prefix_and_method() {
    let spec = sample();
    assert_eq!(
        endpoint_candidates(&spec, "/u", Method::Get),
        vec![Candidate { value: "/users".to_string(), help: "List users".to_string() }]
    );
    assert_eq!(
        endpoint_candidates(&spec, "/", Method::Get),
        vec![
            Candidate { value: "/users".to_string(), help: "List users".to_string() },
            Candidate { value: "/items".to_string(), help: " (deprecated)".to_string() },
        ]
    );
    assert!(endpoint_candidates(&spec, "/i", Method::Post).is_empty());
}

#[test]
fn params_complete_without_passed_ones() {
    let spec = sample();
    assert_eq!(
        param_candidates(&spec, "/users", Method::Get, "", &vec!["limit".to_string()]),
        vec![Candidate { value: "page=".to_string(), help: "int (required)".to_string() }]
    );
    assert_eq!(
        param_candidates(&spec, "/users", Method::Get, "l", &vec![]),
        vec![Candidate { value: "limit=".to_string(), help: "int".to_string() }]
    );
    assert!(param_candidates(&spec, "/users", Method::Delete, "", &vec![]).is_empty());
}
