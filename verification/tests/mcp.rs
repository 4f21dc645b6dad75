use delta_core::json::{Json, JsonNumber};
use delta_core::mcp::rpc::{
    json_rpc_error, request_timeout_error, rpc_request, stdio_reply, ToolPager,
};
use delta_core::mcp::{
    check_target, ip_string, is_private_ip, resolve_target, sanitize_segment, tool_prefix, IpAddress,
};

fn convert(value: &serde_json::Value) -> Json {
    match value {
        serde_json::Value::Null => Json::Null,
        serde_json::Value::Bool(b) => Json::Bool(*b),
        serde_json::Value::Number(n) => {
            if let Some(u) = n.as_u64() {
                Json::Number(JsonNumber::PosInt(u))
            } else if let Some(i) = n.as_i64() {
                Json::Number(JsonNumber::NegInt(i))
            } else {
                Json::Number(JsonNumber::Float(n.to_string()))
            }
        },
        serde_json::Value::String(s) => Json::String(s.clone()),
        serde_json::Value::Array(items) => Json::Array(items.iter().map(convert).collect()),
        serde_json::Value::Object(map) => {
            Json::Object(map.iter().map(|(k, v)| (k.clone(), convert(v))).collect())
        },
    }
}

fn parse(text: &str) -> Json {
    let value: serde_json::Value = serde_json::from_str(text).expect("test JSON");
    convert(&value)
}

fn v4(text: &str) -> IpAddress {
    let parts: Vec<u8> = text.split('.').map(|p| p.parse().unwrap()).collect();
    IpAddress::V4([parts[0], parts[1], parts[2], parts[3]])
}

fn v6(segments: [u16; 8]) -> IpAddress {
    IpAddress::V6(segments)
}

#[test]
fn mcp_target_pins_address() {
    let target = resolve_target("https://example.com:8443/mcp?x=1", |host, port| {
        assert_eq!(host, "example.com");
        assert_eq!(port, 8443);
        Ok(vec![v4("93.184.216.34")])
    })
    .unwrap();

    assert_eq!(target.request_url, "https://93.184.216.34:8443/mcp?x=1");
    assert_eq!(target.host_header, "example.com:8443");
    assert_eq!(target.server_name, "example.com");
}

#[test]
fn mcp_target_rejects_private_answer() {
    let error = resolve_target("https://example.com/mcp", |_, _| Ok(vec![v4("127.0.0.1")])).err().unwrap();

    assert!(error.contains("private"));
}

#[test]
fn mcp_target_rejects_split_answer() {
    let error = resolve_target("https://example.com/mcp", |_, _| Ok(vec![v4("93.184.216.34"), v4("10.0.0.1")]))
        .err()
        .unwrap();

    assert!(error.contains("private"));
}

#[test]
fn mcp_target_default_port_keeps_bare_host_header() {
    let target = resolve_target("http://example.com/mcp", |host, port| {
        assert_eq!(host, "example.com");
        assert_eq!(port, 80);
        Ok(vec![v4("93.184.216.34")])
    })
    .unwrap();
    assert_eq!(target.request_url, "http://93.184.216.34/mcp");
    assert_eq!(target.host_header, "example.com");
}

#[test]
fn mcp_target_refuses_bad_urls_and_empty_answers() {
    assert_eq!(
        check_target("ftp://example.com/mcp").err().as_deref(),
        Some("HTTP MCP requires an http(s) URL")
    );
    assert_eq!(
        check_target("https://localhost/mcp").err().as_deref(),
        Some("HTTP MCP cannot target localhost")
    );
    assert_eq!(
        check_target("https://api.localhost/mcp").err().as_deref(),
        Some("HTTP MCP cannot target localhost")
    );
    assert!(check_target("not a url").err().unwrap().starts_with("invalid MCP URL: "));
    let error = resolve_target("https://example.com/mcp", |_, _| Ok(Vec::new())).err().unwrap();
    assert_eq!(error, "HTTP MCP host did not resolve");
    let error = resolve_target("https://example.com/mcp", |_, _| Err("resolve MCP host: nope".to_string()))
        .err()
        .unwrap();
    assert_eq!(error, "resolve MCP host: nope");
}

#[test]
fn private_addresses_are_recognised() {
    assert!(is_private_ip(v4("10.1.2.3")));
    assert!(is_private_ip(v4("172.16.0.1")));
    assert!(is_private_ip(v4("192.168.1.1")));
    assert!(is_private_ip(v4("169.254.0.1")));
    assert!(is_private_ip(v4("224.0.0.1")));
    assert!(is_private_ip(v4("0.0.0.0")));
    assert!(is_private_ip(v4("0.1.2.3")));
    assert!(!is_private_ip(v4("93.184.216.34")));
    assert!(!is_private_ip(v4("172.32.0.1")));
    assert!(is_private_ip(v6([0, 0, 0, 0, 0, 0, 0, 1])));
    assert!(is_private_ip(v6([0; 8])));
    assert!(is_private_ip(v6([0xff02, 0, 0, 0, 0, 0, 0, 1])));
    assert!(is_private_ip(v6([0xfd00, 0, 0, 0, 0, 0, 0, 1])));
    assert!(is_private_ip(v6([0xfe80, 0, 0, 0, 0, 0, 0, 1])));
    assert!(!is_private_ip(v6([0x2606, 0x2800, 0x220, 1, 0x248, 0x1893, 0x25c8, 0x1946])));
}

#[test]
fn addresses_print_as_std_does() {
    for text in ["93.184.216.34", "10.0.0.1", "0.0.0.0"] {
        assert_eq!(ip_string(v4(text)), text);
    }
    let cases: Vec<([u16; 8], &str)> = vec![
        ([0, 0, 0, 0, 0, 0, 0, 1], "::1"),
        ([0; 8], "::"),
        ([0xfe80, 0, 0, 0, 0, 0, 0, 1], "fe80::1"),
        ([0x2606, 0x2800, 0x220, 1, 0x248, 0x1893, 0x25c8, 0x1946], "2606:2800:220:1:248:1893:25c8:1946"),
        ([1, 0, 0, 1, 0, 0, 0, 1], "1:0:0:1::1"),
        ([1, 0, 0, 0, 0, 0, 0, 0], "1::"),
        ([0, 0, 0, 0, 0, 0xffff, 0x0102, 0x0304], "::ffff:1.2.3.4"),
        ([1, 0, 2, 0, 3, 0, 4, 0], "1:0:2:0:3:0:4:0"),
    ];
    for (segments, text) in cases {
        assert_eq!(ip_string(v6(segments)), text);
    }
}

#[test]
fn tool_names_are_sanitized() {
    assert_eq!(sanitize_segment("my server!"), "my_server");
    assert_eq!(sanitize_segment("__a-b__"), "a_b");
    assert_eq!(tool_prefix("Git Hub"), "mcp__Git_Hub__");
}

#[test]
fn json_rpc_errors_are_explained() {
    assert_eq!(
        json_rpc_error(&parse(r#"{"error":{"code":-32601,"message":"Method not found"}}"#)).as_deref(),
        Some("MCP error -32601: Method not found")
    );
    assert_eq!(json_rpc_error(&parse(r#"{"error":{}}"#)).as_deref(), Some("MCP request failed"));
    assert!(json_rpc_error(&parse(r#"{"result":{}}"#)).is_none());
}

#[test]
fn stdio_replies_are_matched_by_id() {
    let reply = stdio_reply(&parse(r#"{"id":3,"result":{"ok":true}}"#), 3).unwrap().unwrap();
    assert!(reply.same(&parse(r#"{"ok":true}"#)));
    assert!(stdio_reply(&parse(r#"{"id":4,"result":{}}"#), 3).is_none());
    let failed = stdio_reply(&parse(r#"{"id":3,"error":{"message":"no"}}"#), 3).unwrap();
    assert_eq!(failed.err().as_deref(), Some("no"));
}

#[test]
fn requests_carry_version_id_and_method() {
    let request = rpc_request(7, "tools/list", parse("{}"));
    assert!(request.same(&parse(r#"{"id":7,"jsonrpc":"2.0","method":"tools/list","params":{}}"#)));
    assert_eq!(request_timeout_error("tools/call"), "MCP request timed out: tools/call");
}

#[test]
fn tool_pages_follow_the_cursor() {
    let mut pager = ToolPager::new();
    assert!(pager.params().same(&parse("{}")));
    assert!(pager.absorb(&parse(r#"{"tools":[{"name":"a"}],"nextCursor":"c2"}"#)));
    assert!(pager.params().same(&parse(r#"{"cursor":"c2"}"#)));
    assert!(!pager.absorb(&parse(r#"{"tools":[{"name":"b"}]}"#)));
}
