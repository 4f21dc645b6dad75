use delta_core::capability::host::CapabilityHost;
use delta_core::json::{Json, JsonNumber};
use delta_core::mcp::runtime::{McpRuntime, McpToolRunner};

fn convert(value: &serde_json::Value) -> Json {
    match value {
        serde_json::Value::Null => Json::Null,
        serde_json::Value::Bool(b) => Json::Bool(*b),
        serde_json::Value::Number(n) => {
            if let Some(u) = n.as_u64() {
                Json::Number(JsonNumber::PosInt(u))
            } else if let Some(i) = n.as_i64() {
                Json::Number(JsonNumber::NegInt(i))
            } else {
                Json::Number(JsonNumber::Float(n.to_string()))
            }
        }
        serde_json::Value::String(s) => Json::String(s.clone()),
        serde_json::Value::Array(items) => Json::Array(items.iter().map(convert).collect()),
        serde_json::Value::Object(map) => Json::Object(map.iter().map(|(k, v)| (k.clone(), convert(v))).collect()),
    }
}

fn parse(text: &str) -> Json {
    convert(&serde_json::from_str::<serde_json::Value>(text).expect("test JSON"))
}

fn tools(text: &str) -> Vec<Json> {
    match parse(text) {
        Json::Array(items) => items,
        _ => panic!("array expected"),
    }
}

fn field<'a>(value: &'a Json, key: &str) -> Option<&'a Json> {
    value.get(key)
}

#[test]
fn connected_server_tools_are_registered_under_its_prefix() {
    let mut runtime = McpRuntime::new();
    let mut host: CapabilityHost<McpToolRunner> = CapabilityHost::new();
    let offered = tools(r#"[{"name":"search","description":"Search","inputSchema":{"type":"object"}}]"#);
    let reply = runtime.connect("git", &parse(r#"{"command":"git-mcp"}"#), Ok(offered), &mut host, |r| r);
    assert!(field(&reply, "ok").unwrap().same(&Json::Bool(true)));
    assert!(field(&reply, "tool_count").unwrap().same(&Json::Number(JsonNumber::PosInt(1))));
    let registration = host.registry.get("mcp__git__search").expect("registered tool");
    assert_eq!(registration.runner.remote_tool, "search");
    assert_eq!(runtime.server_names(), vec!["git".to_string()]);
    let listed = runtime.tools("git");
    assert!(field(&listed, "ok").unwrap().same(&Json::Bool(true)));

    let mut rows = vec![parse(r#"{"name":"git","last_error":"old"}"#), parse(r#"{"name":"other"}"#)];
    runtime.decorate_rows(&mut rows);
    assert!(field(&rows[0], "status").unwrap().same(&Json::String("connected".to_string())));
    assert!(field(&rows[0], "last_error").unwrap().same(&Json::Null));
    assert!(field(&rows[1], "status").is_none());

    assert!(runtime.disconnect("git", &mut host));
    assert!(host.registry.get("mcp__git__search").is_none());
    assert!(!runtime.disconnect("git", &mut host));
    assert!(field(&runtime.tools("git"), "ok").unwrap().same(&Json::Bool(false)));
}

#[test]
fn colliding_tool_names_register_nothing() {
    let mut runtime = McpRuntime::new();
    let mut host: CapabilityHost<McpToolRunner> = CapabilityHost::new();
    let offered = tools(r#"[{"name":"a b"},{"name":"a_b"}]"#);
    let reply = runtime.connect("srv", &parse("{}"), Ok(offered), &mut host, |r| r);
    assert!(field(&reply, "error").unwrap().same(&Json::String("MCP tool names collide after normalization".to_string())));
    assert!(host.registry.get("mcp__srv__a_b").is_none());
    assert!(runtime.server_names().is_empty());
}

#[test]
fn failed_connections_report_oauth_needs() {
    let mut runtime = McpRuntime::new();
    let mut host: CapabilityHost<McpToolRunner> = CapabilityHost::new();
    let reply = runtime.connect("srv", &parse("{}"), Err("MCP OAuth requires an access token".to_string()), &mut host, |r| r);
    assert!(field(&reply, "status").unwrap().same(&Json::String("needs_auth".to_string())));
    let reply = runtime.connect("srv", &parse("{}"), Err("spawn failed".to_string()), &mut host, |r| r);
    assert!(field(&reply, "status").unwrap().same(&Json::String("error".to_string())));
}
