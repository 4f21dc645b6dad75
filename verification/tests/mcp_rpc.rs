use delta_core::binary64::Binary64;
use delta_core::capability::abi::CapabilityExitState;
use delta_core::json::{Json, JsonNumber};
use delta_core::mcp::rpc::{
    call_timeout_secs, http_fault_error, http_headers, http_url, is_http_server, parse_rpc_payload,
    request_headers, rpc_candidate_texts, server_exit_error, tool_call_result, uses_tls, HttpFault,
};
use delta_core::strmap::StrMap;

fn convert(value: &serde_json::Value) -> Json {
    match value {
        serde_json::Value::Null => Json::Null,
        serde_json::Value::Bool(b) => Json::Bool(*b),
        serde_json::Value::Number(n) => {
            if let Some(u) = n.as_u64() {
                Json::Number(JsonNumber::PosInt(u))
            } else if let Some(i) = n.as_i64() {
                Json::Number(JsonNumber::NegInt(i))
            } else {
                Json::Number(JsonNumber::Float(n.to_string()))
            }
        }
        serde_json::Value::String(s) => Json::String(s.clone()),
        serde_json::Value::Array(items) => Json::Array(items.iter().map(convert).collect()),
        serde_json::Value::Object(map) => Json::Object(map.iter().map(|(k, v)| (k.clone(), convert(v))).collect()),
    }
}

fn parse(text: &str) -> Json {
    convert(&serde_json::from_str::<serde_json::Value>(text).expect("test JSON"))
}

fn decode(text: &str) -> Option<Json> {
    serde_json::from_str::<serde_json::Value>(text).ok().map(|v| convert(&v))
}

#[test]
fn http_servers_are_recognised_by_url_or_type() {
    assert!(is_http_server(&parse(r#"{"url":"https://x/mcp"}"#)));
    assert!(is_http_server(&parse(r#"{"type":"streamable-http"}"#)));
    assert!(!is_http_server(&parse(r#"{"command":"npx"}"#)));
    assert_eq!(http_url(&parse(r#"{"url":"https://x/mcp"}"#)).unwrap(), "https://x/mcp");
    assert_eq!(http_url(&parse(r#"{"type":"http"}"#)).unwrap_err(), "HTTP MCP requires an http(s) URL");
    assert!(uses_tls("https://x"));
    assert!(!uses_tls("http://x"));
}

#[test]
fn custom_headers_skip_host_and_require_oauth_tokens() {
    let headers = http_headers(&parse(r#"{"headers":{"X-Key":"k","Host":"evil","Num":5}}"#)).unwrap();
    assert_eq!(headers.get("X-Key").map(String::as_str), Some("k"));
    assert!(headers.get("Host").is_none());
    assert!(headers.get("Num").is_none());
    assert_eq!(
        http_headers(&parse(r#"{"auth":"oauth"}"#)).err().as_deref(),
        Some("MCP OAuth requires an access token before connecting")
    );
    assert!(http_headers(&parse(r#"{"auth":"oauth","headers":{"Authorization":"Bearer t"}}"#)).is_ok());
}

#[test]
fn request_headers_are_set_in_order() {
    let mut custom = StrMap::new();
    custom.insert("X-Key".to_string(), "k".to_string());
    let headers = request_headers(&custom, "example.com:8443", Some("sess"), Some("2025-06-18"));
    let names: Vec<&str> = headers.iter().map(|(k, _)| k.as_str()).collect();
    assert_eq!(names, vec!["Accept", "Content-Type", "X-Key", "Host", "Mcp-Session-Id", "MCP-Protocol-Version"]);
    assert_eq!(headers[3].1, "example.com:8443");
}

#[test]
fn http_replies_are_read_from_the_body_or_its_events() {
    let body = "event: message\r\ndata: {\"jsonrpc\":\"2.0\",\"id\":2,\"result\":{\"ok\":true}}\r\n\r\n";
    let texts = rpc_candidate_texts(body);
    assert_eq!(texts.len(), 2);
    let decoded: Vec<Option<Json>> = texts.iter().map(|t| decode(t)).collect();
    let answer = parse_rpc_payload(&decoded, 2).unwrap();
    assert!(answer.same(&parse(r#"{"ok":true}"#)));
    assert_eq!(
        parse_rpc_payload(&decoded, 3).unwrap_err(),
        "MCP response did not contain the matching JSON-RPC result"
    );
}

#[test]
fn transport_failures_are_explained() {
    assert_eq!(http_fault_error(HttpFault::Status(404, "nope".to_string())), "MCP HTTP 404: nope");
    assert_eq!(http_fault_error(HttpFault::Transport("refused".to_string())), "MCP HTTP transport: refused");
    assert_eq!(http_fault_error(HttpFault::Read("eof".to_string())), "read MCP HTTP response: eof");
    assert_eq!(server_exit_error(&Vec::new()), "MCP server exited");
    assert_eq!(server_exit_error(&vec!["a".to_string(), "b".to_string()]), "MCP server exited: a | b");
    assert_eq!(call_timeout_secs(0), 1);
    assert_eq!(call_timeout_secs(30), 30);
}

#[test]
fn tool_call_outcomes_become_job_results() {
    let now = Binary64 { bits: 5.0f64.to_bits() };
    let ok = tool_call_result("j1", Ok(parse(r#"{"content":[]}"#)), now);
    assert_eq!(ok.state, CapabilityExitState::Completed);
    let cancelled = tool_call_result("j1", Err("cancelled".to_string()), now);
    assert_eq!(cancelled.state, CapabilityExitState::Cancelled);
    let failed = tool_call_result("j1", Err("boom".to_string()), now);
    assert_eq!(failed.state, CapabilityExitState::Failed);
    assert_eq!(failed.diagnostics.and_then(|d| d.error_code).as_deref(), Some("mcp_call"));
}
