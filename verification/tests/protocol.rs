use inferenco_mcp::json::JsonValue;
use inferenco_mcp::rpc::{dispatch, dispatch_fetched, health_response, parse_api_keys,
    parse_port, parse_transport, read_request, sse_error_event, sse_init_event, DispatchStep,
    Transport};
use inferenco_mcp::rpc::authorize;
use inferenco_mcp::tools::{FetchEvent, ToolService};

fn obj(fields: Vec<(&str, JsonValue)>) -> JsonValue {
    JsonValue::Obj(
        fields
            .into_iter()
            .map(|(k, v)| (k.to_string(), v))
            .collect(),
    )
}

fn s(text: &str) -> JsonValue {
    JsonValue::Str(text.to_string())
}

fn field<'a>(v: &'a JsonValue, key: &str) -> &'a JsonValue {
    v.get(key).expect("field should be present")
}

fn error_code(resp: &JsonValue) -> i64 {
    field(field(resp, "error"), "code")
        .as_int()
        .expect("error code should be a number")
}

fn reply(step: DispatchStep) -> JsonValue {
    match step {
        DispatchStep::Reply(resp) => resp,
        _ => panic!("expected a reply"),
    }
}

#[test]
fn echo_call_yields_one_text_block() {
    let mut service = ToolService::new();
    let msg = obj(vec![
        ("jsonrpc", s("2.0")),
        ("id", JsonValue::Int(1)),
        ("method", s("tools/call")),
        (
            "params",
            obj(vec![
                ("name", s("echo")),
                ("arguments", obj(vec![("message", s("hi"))])),
            ]),
        ),
    ]);
    let req = read_request(&msg).expect("request should parse");
    let resp = reply(dispatch(&mut service, req));
    let content = field(field(&resp, "result"), "content");
    match content {
        JsonValue::Arr(items) => {
            assert_eq!(items.len(), 1);
            let block = &items[0];
            assert_eq!(
                field(block, "type").as_str().expect("type").as_str(),
                "text"
            );
            assert_eq!(field(block, "text").as_str().expect("text").as_str(), "hi");
        }
        _ => panic!("content should be an array"),
    }
    assert_eq!(
        field(&resp, "id").as_int().expect("id should be echoed"),
        1
    );
    assert!(resp.get("error").is_none());
}

#[test]
fn notification_without_id_is_acknowledged_never_erred() {
    let mut service = ToolService::new();
    let msg = obj(vec![
        ("jsonrpc", s("2.0")),
        ("method", s("notifications/initialized")),
    ]);
    let req = read_request(&msg).expect("request should parse");
    match dispatch(&mut service, req) {
        DispatchStep::Ack(resp) => {
            assert!(resp.get("error").is_none());
            assert!(resp.get("result").is_some());
            assert!(field(&resp, "id").is_null());
        }
        _ => panic!("a notification must be acknowledged"),
    }

    let unknown = obj(vec![
        ("jsonrpc", s("2.0")),
        ("method", s("notifications/whatever")),
    ]);
    let req = read_request(&unknown).expect("request should parse");
    match dispatch(&mut service, req) {
        DispatchStep::Ack(resp) => assert!(resp.get("error").is_none()),
        _ => panic!("unknown notifications are acknowledged too"),
    }
}

#[test]
fn wrong_protocol_version_yields_invalid_request() {
    let mut service = ToolService::new();
    let msg = obj(vec![
        ("jsonrpc", s("1.0")),
        ("id", JsonValue::Int(1)),
        ("method", s("initialize")),
    ]);
    let req = read_request(&msg).expect("request should parse");
    let resp = reply(dispatch(&mut service, req));
    assert_eq!(error_code(&resp), -32600);
}

#[test]
fn unknown_tool_yields_invalid_params() {
    let mut service = ToolService::new();
    let msg = obj(vec![
        ("jsonrpc", s("2.0")),
        ("id", JsonValue::Int(7)),
        ("method", s("tools/call")),
        ("params", obj(vec![("name", s("nonexistent"))])),
    ]);
    let req = read_request(&msg).expect("request should parse");
    let resp = reply(dispatch(&mut service, req));
    assert_eq!(error_code(&resp), -32602);
    assert_eq!(
        field(field(&resp, "error"), "message")
            .as_str()
            .expect("message")
            .as_str(),
        "Tool not found"
    );
    assert_eq!(field(&resp, "id").as_int(), Some(7));
}

#[test]
fn unknown_method_yields_method_not_found() {
    let mut service = ToolService::new();
    let msg = obj(vec![
        ("jsonrpc", s("2.0")),
        ("id", JsonValue::Int(2)),
        ("method", s("resources/list")),
    ]);
    let req = read_request(&msg).expect("request should parse");
    let resp = reply(dispatch(&mut service, req));
    assert_eq!(error_code(&resp), -32601);
}

#[test]
fn initialize_reports_version_and_tool_capability() {
    let mut service = ToolService::new();
    let msg = obj(vec![
        ("jsonrpc", s("2.0")),
        ("id", JsonValue::Int(1)),
        ("method", s("initialize")),
    ]);
    let req = read_request(&msg).expect("request should parse");
    let resp = reply(dispatch(&mut service, req));
    let result = field(&resp, "result");
    assert_eq!(
        field(result, "protocolVersion").as_str().expect("version").as_str(),
        "2025-03-26"
    );
    assert!(field(field(result, "capabilities"), "tools").get("x").is_none());
    assert_eq!(
        field(field(result, "serverInfo"), "name")
            .as_str()
            .expect("name")
            .as_str(),
        "inferenco-mcp"
    );
}

#[test]
fn tools_list_reports_all_six_tools_in_order() {
    let mut service = ToolService::new();
    let msg = obj(vec![
        ("jsonrpc", s("2.0")),
        ("id", JsonValue::Int(1)),
        ("method", s("tools/list")),
    ]);
    let req = read_request(&msg).expect("request should parse");
    let resp = reply(dispatch(&mut service, req));
    let tools = field(field(&resp, "result"), "tools");
    let names: Vec<String> = match tools {
        JsonValue::Arr(items) => items
            .iter()
            .map(|t| field(t, "name").as_str().expect("name").clone())
            .collect(),
        _ => panic!("tools should be an array"),
    };
    assert_eq!(
        names,
        vec![
            "echo",
            "reverse_text",
            "increment",
            "current_time",
            "roll_dice",
            "read_cedra_docs"
        ]
    );
}

#[test]
fn tools_call_without_params_yields_invalid_params() {
    let mut service = ToolService::new();
    let msg = obj(vec![
        ("jsonrpc", s("2.0")),
        ("id", JsonValue::Int(1)),
        ("method", s("tools/call")),
    ]);
    let req = read_request(&msg).expect("request should parse");
    let resp = reply(dispatch(&mut service, req));
    assert_eq!(error_code(&resp), -32602);
}

#[test]
fn increment_via_dispatch_moves_the_counter() {
    let mut service = ToolService::new();
    for expected in ["1", "2", "3"] {
        let msg = obj(vec![
            ("jsonrpc", s("2.0")),
            ("id", JsonValue::Int(1)),
            ("method", s("tools/call")),
            ("params", obj(vec![("name", s("increment"))])),
        ]);
        let req = read_request(&msg).expect("request should parse");
        let resp = reply(dispatch(&mut service, req));
        let content = field(field(&resp, "result"), "content");
        match content {
            JsonValue::Arr(items) => {
                assert_eq!(
                    field(&items[0], "text").as_str().expect("text").as_str(),
                    expected
                );
            }
            _ => panic!("content should be an array"),
        }
    }
    assert_eq!(service.counter, 3);
}

#[test]
fn docs_call_is_dispatched_as_a_fetch_and_finished_from_the_outcome() {
    let mut service = ToolService::new();
    let msg = obj(vec![
        ("jsonrpc", s("2.0")),
        ("id", JsonValue::Int(9)),
        ("method", s("tools/call")),
        (
            "params",
            obj(vec![
                ("name", s("read_cedra_docs")),
                ("arguments", obj(vec![("path", s("guides/quickstart"))])),
            ]),
        ),
    ]);
    let req = read_request(&msg).expect("request should parse");
    let (id, url) = match dispatch(&mut service, req) {
        DispatchStep::Fetch { id, url } => (id, url),
        _ => panic!("the docs tool needs a fetch"),
    };
    assert_eq!(url, "https://docs.cedra.network/guides/quickstart");
    let html = "<html><body><main>Welcome</main></body></html>".to_string();
    let resp = dispatch_fetched(id, &url, FetchEvent::Response(200, html));
    let content = field(field(&resp, "result"), "content");
    match content {
        JsonValue::Arr(items) => {
            let text = field(&items[0], "text").as_str().expect("text");
            assert!(text.starts_with("Source: https://docs.cedra.network/guides/quickstart"));
            assert!(text.ends_with("Welcome"));
        }
        _ => panic!("content should be an array"),
    }
    assert_eq!(field(&resp, "id").as_int(), Some(9));
}

#[test]
fn docs_call_rejects_absolute_urls_via_dispatch() {
    let mut service = ToolService::new();
    let msg = obj(vec![
        ("jsonrpc", s("2.0")),
        ("id", JsonValue::Int(3)),
        ("method", s("tools/call")),
        (
            "params",
            obj(vec![
                ("name", s("read_cedra_docs")),
                ("arguments", obj(vec![("path", s("http://example.com"))])),
            ]),
        ),
    ]);
    let req = read_request(&msg).expect("request should parse");
    let resp = reply(dispatch(&mut service, req));
    assert_eq!(error_code(&resp), -32602);
}

#[test]
fn malformed_envelopes_are_rejected_before_dispatch() {
    assert!(read_request(&JsonValue::Null).is_none());
    assert!(read_request(&s("hello")).is_none());
    let no_method = obj(vec![("jsonrpc", s("2.0"))]);
    assert!(read_request(&no_method).is_none());
    let bad_version_type = obj(vec![("jsonrpc", JsonValue::Int(2)), ("method", s("x"))]);
    assert!(read_request(&bad_version_type).is_none());
}

#[test]
fn authorization_admits_only_listed_keys() {
    let keys = parse_api_keys("alpha, beta ,gamma");
    let listed: Vec<String> = keys.clone();
    assert_eq!(listed, vec!["alpha", "beta", "gamma"]);
    assert!(authorize(Some(&"beta".to_string()), &keys));
    assert!(!authorize(Some(&"".to_string()), &keys));
    assert!(!authorize(Some(&"delta".to_string()), &keys));
    assert!(!authorize(None, &keys));
}

#[test]
fn port_selector_falls_back_to_the_default() {
    assert_eq!(parse_port("9090"), 9090);
    assert_eq!(parse_port("65535"), 65535);
    assert_eq!(parse_port(""), 8080);
    assert_eq!(parse_port("not a port"), 8080);
    assert_eq!(parse_port("70000"), 8080);
}

#[test]
fn transport_selector_defaults_to_stdio() {
    assert!(matches!(parse_transport("http"), Transport::Http));
    assert!(matches!(parse_transport("stdio"), Transport::Stdio));
    assert!(matches!(parse_transport("carrier pigeon"), Transport::Stdio));
}

#[test]
fn health_payload_names_the_service() {
    let health = health_response();
    assert_eq!(field(&health, "status").as_str().expect("status").as_str(), "ok");
    assert_eq!(
        field(&health, "service").as_str().expect("service").as_str(),
        "inferenco-mcp"
    );
}

#[test]
fn sse_events_carry_auth_errors_in_band() {
    let missing = sse_error_event(false);
    assert_eq!(
        field(field(&missing, "error"), "message")
            .as_str()
            .expect("message")
            .as_str(),
        "Authentication required"
    );
    let rejected = sse_error_event(true);
    assert_eq!(
        field(field(&rejected, "error"), "message")
            .as_str()
            .expect("message")
            .as_str(),
        "Unauthorized"
    );
    let service = ToolService::new();
    let init = sse_init_event(&service);
    assert_eq!(
        field(field(&init, "result"), "protocolVersion")
            .as_str()
            .expect("version")
            .as_str(),
        "2025-03-26"
    );
}

#[test]
fn null_id_is_treated_as_a_notification() {
    let mut service = ToolService::new();
    let msg = obj(vec![
        ("jsonrpc", s("2.0")),
        ("id", JsonValue::Null),
        ("method", s("notifications/initialized")),
    ]);
    let req = read_request(&msg).expect("request should parse");
    assert!(matches!(dispatch(&mut service, req), DispatchStep::Ack(_)));
}

#[test]
fn empty_allow_list_holds_one_empty_entry() {
    let keys = parse_api_keys("");
    assert_eq!(keys, vec![""]);
    assert!(authorize(Some(&"".to_string()), &keys));
    assert!(!authorize(Some(&"anything".to_string()), &keys));
}

#[test]
fn dice_arguments_outside_a_byte_are_rejected() {
    let mut service = ToolService::new();
    let msg = obj(vec![
        ("jsonrpc", s("2.0")),
        ("id", JsonValue::Int(1)),
        ("method", s("tools/call")),
        (
            "params",
            obj(vec![
                ("name", s("roll_dice")),
                ("arguments", obj(vec![("sides", JsonValue::Int(300))])),
            ]),
        ),
    ]);
    let req = read_request(&msg).expect("request should parse");
    let resp = reply(dispatch(&mut service, req));
    assert_eq!(error_code(&resp), -32602);
    assert_eq!(
        field(field(&resp, "error"), "message")
            .as_str()
            .expect("message")
            .as_str(),
        "Invalid roll_dice arguments"
    );
}

#[test]
fn the_gate_refuses_exactly_the_unlisted() {
    let keys = parse_api_keys("alpha,beta");
    assert!(inferenco_mcp::rpc::gate_allows(false, None, &keys));
    assert!(inferenco_mcp::rpc::gate_allows(
        false,
        Some(&"junk".to_string()),
        &keys
    ));
    assert!(inferenco_mcp::rpc::gate_allows(
        true,
        Some(&"alpha".to_string()),
        &keys
    ));
    assert!(!inferenco_mcp::rpc::gate_allows(true, None, &keys));
    assert!(!inferenco_mcp::rpc::gate_allows(
        true,
        Some(&"".to_string()),
        &keys
    ));
    assert!(!inferenco_mcp::rpc::gate_allows(
        true,
        Some(&"gamma".to_string()),
        &keys
    ));
}

#[test]
fn current_time_text_has_the_rfc3339_positions() {
    let mut service = ToolService::new();
    let msg = obj(vec![
        ("jsonrpc", s("2.0")),
        ("id", JsonValue::Int(1)),
        ("method", s("tools/call")),
        ("params", obj(vec![("name", s("current_time"))])),
    ]);
    let req = read_request(&msg).expect("request should parse");
    let resp = reply(dispatch(&mut service, req));
    let content = field(field(&resp, "result"), "content");
    let text = match content {
        JsonValue::Arr(items) => field(&items[0], "text").as_str().expect("text").clone(),
        _ => panic!("content should be an array"),
    };
    let bytes: Vec<char> = text.chars().collect();
    assert!(bytes.len() >= 25);
    assert!(bytes[0..4].iter().all(|c| c.is_ascii_digit()));
    assert_eq!(bytes[4], '-');
    assert!(bytes[5..7].iter().all(|c| c.is_ascii_digit()));
    assert_eq!(bytes[7], '-');
    assert!(bytes[8..10].iter().all(|c| c.is_ascii_digit()));
    assert_eq!(bytes[10], 'T');
    assert!(bytes[11..13].iter().all(|c| c.is_ascii_digit()));
    assert_eq!(bytes[13], ':');
    assert!(bytes[14..16].iter().all(|c| c.is_ascii_digit()));
    assert_eq!(bytes[16], ':');
    assert!(bytes[17..19].iter().all(|c| c.is_ascii_digit()));
    assert!(text.ends_with("+00:00"));
}
