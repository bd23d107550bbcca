use gt::api::{
    auth_hint_for, build_curl_command, extract_required_scopes, parse_key_value,
    parse_typed_value, TypedValue,
};

fn body_text(pairs: &[(&str, &str)]) -> String {
    let mut map = serde_json::Map::new();
    for (k, v) in pairs {
        map.insert(k.to_string(), serde_json::Value::String(v.to_string()));
    }
    serde_json::to_string(&serde_json::Value::Object(map)).unwrap()
}

#[test]
fn test_parse_key_value() {
    let (k, v) = parse_key_value("name=hello").ok().unwrap();
    assert_eq!(k, "name");
    assert_eq!(v, "hello");

    assert!(parse_key_value("noeq").is_err());
}

#[test]
fn test_curl_masks_token_by_default() {
    let line = build_curl_command(
        "GET",
        "https://gt.example/api/v1/user",
        &[],
        None,
        "aafe123456789a263",
        false,
    );
    assert!(line.contains("Authorization: token ***a263"), "got: {line}");
    assert!(!line.contains("aafe123456789a263"), "raw token leaked: {line}");
    assert!(line.contains("curl -X GET"));
    assert!(line.contains("https://gt.example/api/v1/user"));
}

#[test]
fn test_curl_show_secrets_emits_full_token() {
    let line = build_curl_command(
        "GET",
        "https://gt.example/api/v1/user",
        &[],
        None,
        "aafe123456789a263",
        true,
    );
    assert!(line.contains("Authorization: token aafe123456789a263"), "got: {line}");
}

#[test]
fn test_curl_includes_body_and_content_type() {
    let body = body_text(&[("title", "hi"), ("body", "what's up")]);
    let line = build_curl_command(
        "POST",
        "https://gt.example/api/v1/repos/o/r/issues",
        &[],
        Some(body.as_str()),
        "tok12345678abcd",
        false,
    );
    assert!(line.contains("-X POST"));
    assert!(line.contains("Content-Type: application/json"));
    assert!(line.contains("--data-raw"));
    assert!(line.contains(r#""title":"hi""#));
}

#[test]
fn test_curl_escapes_single_quotes_in_body() {
    let body = body_text(&[("msg", "it's fine")]);
    let line = build_curl_command(
        "POST",
        "https://gt.example/api/v1/x",
        &[],
        Some(body.as_str()),
        "tok12345678abcd",
        false,
    );
    assert!(line.contains(r"'\''"), "expected single-quote escape, got: {line}");
}

#[test]
fn test_curl_includes_custom_headers() {
    let headers = vec!["X-Foo:bar".to_string()];
    let line = build_curl_command(
        "GET",
        "https://gt.example/api/v1/x",
        &headers,
        None,
        "tok12345678abcd",
        false,
    );
    assert!(line.contains("-H 'X-Foo:bar'"), "got: {line}");
}

#[test]
fn test_auth_hint_for_401() {
    let hints = auth_hint_for(401, r#"{"message":"unauthorized"}"#);
    assert_eq!(hints.len(), 1);
    assert!(hints[0].contains("gt auth login"));
}

#[test]
fn test_auth_hint_for_403_with_required_scope() {
    let body = r#"{"message":"token does not have at least one of required scope(s), required=[read:admin], token scope=write:user","url":"https://gt.example/api/swagger"}"#;
    let hints = auth_hint_for(403, body);
    assert!(!hints.is_empty(), "expected hints for scope-shaped 403");
    assert!(hints[0].contains("read:admin"), "expected hint to name missing scope, got {hints:?}");
}

#[test]
fn test_auth_hint_for_403_without_scope_info() {
    let hints = auth_hint_for(403, r#"{"message":"forbidden"}"#);
    assert!(hints.is_empty(), "no scope info => no hint, got {hints:?}");
}

#[test]
fn test_auth_hint_for_other_status() {
    assert!(auth_hint_for(404, r#"{"message":"not found"}"#).is_empty());
    assert!(auth_hint_for(500, "").is_empty());
}

#[test]
fn test_extract_required_scopes() {
    assert_eq!(
        extract_required_scopes("required=[read:admin], token scope=..."),
        Some("read:admin".to_string()),
    );
    assert_eq!(
        extract_required_scopes("required=[read:admin write:user], token scope=..."),
        Some("read:admin write:user".to_string()),
    );
    assert_eq!(extract_required_scopes("forbidden"), None);
    assert_eq!(extract_required_scopes("required=[]"), None);
}

#[test]
fn test_parse_typed_value() {
    assert!(matches!(parse_typed_value("true"), TypedValue::Bool(true)));
    assert!(matches!(parse_typed_value("false"), TypedValue::Bool(false)));
    assert!(matches!(parse_typed_value("null"), TypedValue::Null));
    assert!(matches!(parse_typed_value("42"), TypedValue::Int(42)));
    assert!(matches!(parse_typed_value("hello"), TypedValue::Text(ref s) if s == "hello"));
}
