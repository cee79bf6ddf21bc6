use inferenco_mcp::emit::to_json_text;
use inferenco_mcp::json::JsonValue;
use inferenco_mcp::rpc::health_response;

fn s(text: &str) -> JsonValue {
    JsonValue::Str(text.to_string())
}

#[test]
fn scalars_serialize_exactly() {
    assert_eq!(to_json_text(&JsonValue::Null), "null");
    assert_eq!(to_json_text(&JsonValue::Bool(true)), "true");
    assert_eq!(to_json_text(&JsonValue::Bool(false)), "false");
    assert_eq!(to_json_text(&JsonValue::Int(0)), "0");
    assert_eq!(to_json_text(&JsonValue::Int(-42)), "-42");
    assert_eq!(to_json_text(&JsonValue::Int(i64::MIN)), i64::MIN.to_string());
    assert_eq!(to_json_text(&s("hi")), "\"hi\"");
}

#[test]
fn strings_escape_quotes_backslashes_and_controls() {
    assert_eq!(to_json_text(&s("a\"b")), "\"a\\\"b\"");
    assert_eq!(to_json_text(&s("a\\b")), "\"a\\\\b\"");
    assert_eq!(to_json_text(&s("a\nb\tc\r")), "\"a\\nb\\tc\\r\"");
    assert_eq!(to_json_text(&s("\u{1}")), "\"\\u0001\"");
}

#[test]
fn containers_serialize_in_order_without_whitespace() {
    let arr = JsonValue::Arr(vec![JsonValue::Int(1), s("x"), JsonValue::Null]);
    assert_eq!(to_json_text(&arr), "[1,\"x\",null]");
    let obj = JsonValue::Obj(vec![
        ("a".to_string(), JsonValue::Int(1)),
        ("b".to_string(), JsonValue::Arr(vec![])),
        ("c".to_string(), JsonValue::Obj(vec![])),
    ]);
    assert_eq!(to_json_text(&obj), "{\"a\":1,\"b\":[],\"c\":{}}");
}

#[test]
fn emitted_text_round_trips_through_a_json_parser() {
    let health = health_response();
    let text = to_json_text(&health);
    let parsed: serde_json::Value = serde_json::from_str(&text).expect("emitted text is JSON");
    assert_eq!(parsed["status"], "ok");
    assert_eq!(parsed["service"], "inferenco-mcp");
    assert_eq!(parsed["protocol_version"], "2025-03-26");
}
