use oax::collect::choice_cursor;
use oax::collect::coerce_text;
use oax::collect::default_value;
use oax::collect::initial_text;
use oax::collect::offers_selection;
use oax::collect::pick;
use oax::collect::prim_actions;
use oax::collect::ArrayEdit;
use oax::collect::ParamAction;
use oax::collect::ParamsAction;
use oax::collect::Pick;
use oax::collect::PrimAction;
use oax::collect::Session;
use oax::model::Components;
use oax::model::Param;
use oax::model::ParamKind;
use oax::model::Schema;
use oax::model::SchemaKind;
use oax::model::Spec;
use oax::value::Scalar;
use oax::value::Value;

fn kind(k: &str) -> Schema {
    Schema {
        ptr: None,
        kind: Some(SchemaKind::Single(k.to_string())),
        items: None,
        variants: None,
        pattern: None,
    }
}

fn kinds(ks: &[&str]) -> Schema {
    Schema {
        kind: Some(SchemaKind::Multiple(ks.iter().map(|k| k.to_string()).collect())),
        ..kind("x")
    }
}

fn param(name: &str, required: bool, schema: Schema) -> Param {
    Param { name: name.to_string(), kind: ParamKind::Query, required, schema }
}

fn no_schemas() -> Spec {
    Spec { rpcs: vec![], comps: Components { schemas: vec![] } }
}

#[test]
fn required_defaults() {
    let spec = no_schemas();
    assert_eq!(default_value(&spec, &param("b", true, kind("boolean"))), Some(Value::One(Scalar::Bool(false))));
    assert_eq!(default_value(&spec, &param("i", true, kind("integer"))), Some(Value::One(Scalar::Int(0))));
    assert_eq!(
        default_value(&spec, &param("s", true, kind("string"))),
        Some(Value::One(Scalar::Str(String::new())))
    );
    assert_eq!(default_value(&spec, &param("n", true, kinds(&["null", "integer"]))), Some(Value::One(Scalar::Null)));
    assert_eq!(default_value(&spec, &param("o", false, kind("boolean"))), None);
}

#[test]
fn default_follows_pointer() {
    let spec = Spec {
        rpcs: vec![],
        comps: Components { schemas: vec![("Flag".to_string(), kind("boolean"))] },
    };
    let p = param("f", true, Schema { ptr: Some("#/components/schemas/Flag".to_string()), ..kind("x") });
    assert_eq!(default_value(&spec, &p), Some(Value::One(Scalar::Bool(false))));
}

#[test]
fn session_starts_with_defaults() {
    let spec = no_schemas();
    let params = vec![param("b", true, kind("boolean")), param("q", false, kind("string"))];
    let s = Session::new(&spec, &params);
    assert_eq!(s.values, vec![Some(Value::One(Scalar::Bool(false))), None]);
    assert_eq!(s.focus, 0);
    assert_eq!(s.overview(), vec![ParamsAction::Edit(0), ParamsAction::Edit(1), ParamsAction::Done]);
}

#[test]
fn non_numeric_text_keeps_value() {
    let spec = no_schemas();
    let params = vec![param("n", true, kind("integer"))];
    let mut s = Session::new(&spec, &params);
    s.store(0, Some(Value::One(Scalar::Int(5))));
    s.enter_text(0, &kind("integer"), "abc");
    assert_eq!(s.values[0], Some(Value::One(Scalar::Int(5))));
    s.enter_text(0, &kind("integer"), "12");
    assert_eq!(s.values[0], Some(Value::One(Scalar::Int(12))));
}

#[test]
fn integer_text_forms() {
    let int = kind("integer");
    assert_eq!(coerce_text(&int, "42"), Some(Scalar::Int(42)));
    assert_eq!(coerce_text(&int, "+5"), Some(Scalar::Int(5)));
    assert_eq!(coerce_text(&int, "-17"), Some(Scalar::Int(-17)));
    assert_eq!(coerce_text(&int, ""), None);
    assert_eq!(coerce_text(&int, "4 2"), None);
    assert_eq!(coerce_text(&int, "99999999999999999999"), None);
    assert_eq!(coerce_text(&kind("string"), "free"), Some(Scalar::Str("free".to_string())));
    assert_eq!(coerce_text(&kind("boolean"), "true"), None);
}

#[test]
fn enumerated_choices() {
    let s = Schema { variants: Some(vec!["a".to_string(), "b".to_string()]), ..kind("string") };
    assert_eq!(
        prim_actions(&s, false),
        vec![
            PrimAction::Str("a".to_string()),
            PrimAction::Str("b".to_string()),
            PrimAction::Custom,
            PrimAction::Unset
        ]
    );
}

#[test]
fn boolean_and_null_choices() {
    assert_eq!(prim_actions(&kind("boolean"), true), vec![PrimAction::Bool(true), PrimAction::Bool(false)]);
    assert_eq!(
        prim_actions(&kinds(&["integer", "string", "null", "null"]), true),
        vec![PrimAction::Custom, PrimAction::Null]
    );
    let one = prim_actions(&kind("integer"), true);
    assert_eq!(one, vec![PrimAction::Custom]);
    assert!(!offers_selection(&one));
    assert!(offers_selection(&prim_actions(&kind("integer"), false)));
}

#[test]
fn cursor_starts_on_held_choice() {
    let acts = prim_actions(&kind("boolean"), false);
    assert_eq!(choice_cursor(&acts, &Some(Value::One(Scalar::Bool(false)))), 1);
    assert_eq!(choice_cursor(&acts, &None), 2);
    assert_eq!(choice_cursor(&acts, &Some(Value::One(Scalar::Int(3)))), 0);
}

#[test]
fn picking_a_choice() {
    assert_eq!(pick(&PrimAction::Custom), Pick::Enter);
    assert_eq!(pick(&PrimAction::Bool(true)), Pick::Assign(Scalar::Bool(true)));
    assert_eq!(pick(&PrimAction::Str("a".to_string())), Pick::Assign(Scalar::Str("a".to_string())));
    assert_eq!(pick(&PrimAction::Null), Pick::Assign(Scalar::Null));
    assert_eq!(pick(&PrimAction::Unset), Pick::Clear);
}

#[test]
fn typing_starts_from_held_text() {
    assert_eq!(initial_text(&Some(Value::One(Scalar::Int(-30)))), "-30");
    assert_eq!(initial_text(&Some(Value::One(Scalar::Str("hi".to_string())))), "hi");
    assert_eq!(initial_text(&Some(Value::One(Scalar::Bool(true)))), "");
    assert_eq!(initial_text(&None), "");
}

#[test]
fn array_editing() {
    let mut e = ArrayEdit::new(&None);
    assert_eq!(e.actions(), vec![ParamAction::Add, ParamAction::Done]);
    e.add(Some(Scalar::Str("a".to_string())));
    e.add(None);
    e.add(Some(Scalar::Str("b".to_string())));
    e.add(Some(Scalar::Str("a".to_string())));
    assert_eq!(
        e.actions(),
        vec![ParamAction::Add, ParamAction::Remove(0), ParamAction::Remove(1), ParamAction::Remove(2), ParamAction::Done]
    );
    e.remove(0);
    assert_eq!(e.items, vec![Scalar::Str("b".to_string()), Scalar::Str("a".to_string())]);
    let again = ArrayEdit::new(&Some(e.finish()));
    assert_eq!(again.items.len(), 2);
}

#[test]
fn emptied_array_stays_defined() {
    let mut e = ArrayEdit::new(&Some(Value::Many(vec![Scalar::Int(1)])));
    e.remove(0);
    assert_eq!(e.finish(), Value::Many(vec![]));
}
