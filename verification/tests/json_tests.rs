use gt::json::{filter_fields, jq_select, plan_json, unknown_field_text, JsonArgs, JsonPlan, JsonValue};

fn show(v: &JsonValue) -> String {
    match v {
        JsonValue::Null => "null".to_string(),
        JsonValue::Bool(b) => b.to_string(),
        JsonValue::Number(n) => n.clone(),
        JsonValue::Str(s) => format!("\"{s}\""),
        JsonValue::Array(a) => format!("[{}]", a.iter().map(show).collect::<Vec<_>>().join(",")),
        JsonValue::Object(o) => format!(
            "{{{}}}",
            o.iter().map(|(k, x)| format!("\"{k}\":{}", show(x))).collect::<Vec<_>>().join(",")
        ),
    }
}

fn obj(members: Vec<(&str, JsonValue)>) -> JsonValue {
    JsonValue::Object(members.into_iter().map(|(k, v)| (k.to_string(), v)).collect())
}

fn text(s: &str) -> JsonValue {
    JsonValue::Str(s.to_string())
}

fn num(n: &str) -> JsonValue {
    JsonValue::Number(n.to_string())
}

fn people() -> JsonValue {
    JsonValue::Array(vec![
        obj(vec![("name", text("ann")), ("age", num("31")), ("team", obj(vec![("lead", text("zoe"))]))]),
        obj(vec![("name", text("bob")), ("age", num("27"))]),
    ])
}

fn shown(vs: &[JsonValue]) -> Vec<String> {
    vs.iter().map(show).collect()
}

#[test]
fn jq_identity_and_fields() {
    let v = obj(vec![("a", obj(vec![("b", num("1"))])), ("c", text("x"))]);
    assert_eq!(shown(&jq_select(&v, ".")), vec!["{\"a\":{\"b\":1},\"c\":\"x\"}"]);
    assert_eq!(shown(&jq_select(&v, "")), vec!["{\"a\":{\"b\":1},\"c\":\"x\"}"]);
    assert_eq!(shown(&jq_select(&v, ".c")), vec!["\"x\""]);
    assert_eq!(shown(&jq_select(&v, ".a.b")), vec!["1"]);
    assert!(jq_select(&v, ".missing").is_empty());
    assert!(jq_select(&v, ".c.deeper").is_empty());
}

#[test]
fn jq_iterates_arrays() {
    let v = people();
    assert_eq!(shown(&jq_select(&v, ".[].name")), vec!["\"ann\"", "\"bob\""]);
    assert_eq!(shown(&jq_select(&v, ".[].team.lead")), vec!["\"zoe\""]);
    assert_eq!(jq_select(&v, ".[]").len(), 2);
    // `[]` on something that is not an array selects nothing.
    assert!(jq_select(&obj(vec![("x", num("1"))]), ".[]").is_empty());
}

#[test]
fn filter_keeps_requested_fields_in_order() {
    let fields = vec!["age".to_string(), "name".to_string(), "nope".to_string()];
    let out = filter_fields(&people(), &fields);
    assert_eq!(show(&out), "[{\"age\":31,\"name\":\"ann\"},{\"age\":27,\"name\":\"bob\"}]");
    // Items that are not objects, and values that are not arrays, stay as they are.
    let mixed = JsonValue::Array(vec![num("5"), obj(vec![("name", text("c")), ("x", JsonValue::Null)])]);
    assert_eq!(show(&filter_fields(&mixed, &fields)), "[5,{\"name\":\"c\"}]");
    assert_eq!(show(&filter_fields(&text("s"), &fields)), "\"s\"");
}

fn args(fields: Option<Vec<&str>>) -> JsonArgs {
    JsonArgs { json: fields.map(|f| f.into_iter().map(str::to_string).collect()), jq_expr: None }
}

#[test]
fn json_plans() {
    let available = vec!["number".to_string(), "title".to_string()];
    assert!(matches!(plan_json(&args(None), &available), JsonPlan::Full));
    assert!(matches!(plan_json(&args(Some(vec![])), &available), JsonPlan::Full));
    assert!(matches!(plan_json(&args(Some(vec!["help"])), &available), JsonPlan::Help));
    match plan_json(&args(Some(vec!["title", "bogus", "other"])), &available) {
        JsonPlan::UnknownField(f) => assert_eq!(f, "bogus"),
        _ => panic!("expected an unknown field"),
    }
    match plan_json(&args(Some(vec!["title", "number"])), &available) {
        JsonPlan::Filter(keep) => assert_eq!(keep, vec!["title", "number"]),
        _ => panic!("expected a filter"),
    }
    // `help` among other fields is an ordinary (unknown) field.
    match plan_json(&args(Some(vec!["help", "title"])), &available) {
        JsonPlan::UnknownField(f) => assert_eq!(f, "help"),
        _ => panic!("expected an unknown field"),
    }
}

#[test]
fn unknown_field_message() {
    let available = vec!["number".to_string(), "title".to_string()];
    assert_eq!(unknown_field_text("bogus", &available), "Unknown field: bogus\nAvailable fields: number, title");
    assert!(args(Some(vec![])).is_json());
    assert!(!args(None).is_json());
}
