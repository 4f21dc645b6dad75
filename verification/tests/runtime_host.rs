use delta_core::json::{Json, JsonNumber};
use delta_core::runtime::content::validate_schema_value;
use delta_core::runtime::host::{RuntimeConfig, RuntimeHost, DEFAULT_MAX_ITERATIONS};
use delta_core::runtime::tools::ToolCall;

fn s(text: &str) -> Json {
    Json::String(text.to_string())
}

fn obj(members: Vec<(&str, Json)>) -> Json {
    Json::Object(members.into_iter().map(|(k, v)| (k.to_string(), v)).collect())
}

fn get<'a>(value: &'a Json, key: &str) -> Option<&'a Json> {
    match value {
        Json::Object(members) => members.iter().find(|(k, _)| k == key).map(|(_, v)| v),
        _ => None,
    }
}

fn text_of(value: Option<&Json>) -> Option<String> {
    match value {
        Some(Json::String(t)) => Some(t.clone()),
        _ => None,
    }
}

fn keys(value: &Json) -> Vec<String> {
    match value {
        Json::Object(members) => members.iter().map(|(k, _)| k.clone()).collect(),
        _ => Vec::new(),
    }
}

fn ts() -> JsonNumber {
    JsonNumber::Float("123.5".to_string())
}

fn message(role: &str, content: &str) -> Json {
    obj(vec![("content", s(content)), ("role", s(role))])
}

#[test]
fn test_runtime_config_default() {
    let cfg = RuntimeConfig::default();
    assert_eq!(cfg.protocol, "openai_chat");
    assert_eq!(cfg.max_iterations, DEFAULT_MAX_ITERATIONS);
    assert_eq!(cfg.max_retries, 2);
    assert_eq!(cfg.base_url, "https://api.openai.com/v1");
}

#[test]
fn test_cancel_flag() {
    let mut host = RuntimeHost::new("s1", RuntimeConfig::default());
    assert!(!host.is_cancelled());
    host.cancel();
    assert!(host.is_cancelled());
    assert!(host.provider_cancelled());
    host.reset_cancel();
    assert!(!host.is_cancelled());
    assert!(!host.provider_cancelled());
}

#[test]
fn test_switch_model() {
    let mut config = RuntimeConfig::default();
    config.model = "gpt-5.5".to_string();
    let host = RuntimeHost::new("s1", config);
    let mut host = host.with_messages(vec![message("user", "hi")]);
    let notice = host.switch_model("gpt-5.6-terra", &ts());
    assert!(notice.is_some());
    assert_eq!(notice.as_deref(), Some("Model switched to gpt-5.6-terra"));
    assert_eq!(host.model(), "gpt-5.6-terra");
    assert!(host.switch_model("gpt-5.6-terra", &ts()).is_none());
    let last = host.messages().last().unwrap();
    assert_eq!(text_of(get(last, "role")).as_deref(), Some("notice"));
    assert_eq!(text_of(get(last, "kind")).as_deref(), Some("model_switch"));
}

#[test]
fn switching_model_without_history_leaves_no_notice() {
    let mut config = RuntimeConfig::default();
    config.system_prompt = Some("be brief".to_string());
    let mut host = RuntimeHost::new("s1", config);
    assert_eq!(host.messages().len(), 1);
    assert!(host.switch_model("gpt-5.5", &ts()).is_none());
    assert_eq!(host.model(), "gpt-5.5");
    assert_eq!(host.messages().len(), 1);
    assert!(host.switch_model("", &ts()).is_none());
    assert_eq!(host.model(), "gpt-5.5");
}

#[test]
fn test_replace_tools() {
    let old_tools = Json::Array(vec![obj(vec![("function", obj(vec![("name", s("old"))])), ("type", s("function"))])]);
    let new_tools = Json::Array(vec![obj(vec![("function", obj(vec![("name", s("new"))])), ("type", s("function"))])]);
    let mut host = RuntimeHost::new("s1", RuntimeConfig::default()).with_tools(old_tools);
    host.replace_tools(new_tools.deep_clone());
    assert!(host.tools().as_ref().unwrap().same(&new_tools));
}

#[test]
fn test_truncate_messages() {
    let mut host = RuntimeHost::new("s1", RuntimeConfig::default()).with_messages(vec![
        message("user", "a"),
        message("assistant", "b"),
        message("user", "c"),
    ]);
    host.truncate_messages(1);
    assert_eq!(host.messages().len(), 1);
    host.truncate_messages(5);
    assert_eq!(host.messages().len(), 1);
}

#[test]
fn test_outbound_strips_sidecars() {
    let host = RuntimeHost::new("s1", RuntimeConfig::default());
    let msgs = vec![
        obj(vec![
            ("content", s("hello")),
            ("role", s("user")),
            ("source", obj(vec![("connector", s("slack"))])),
            ("ts", Json::Number(JsonNumber::Float("123.0".to_string()))),
        ]),
        message("assistant", "hi"),
        obj(vec![("kind", s("error")), ("role", s("notice")), ("text", s("bad"))]),
    ];
    let host = host.with_messages(msgs);
    let outbound = host.outbound_messages();
    assert_eq!(outbound.len(), 2);
    assert!(get(&outbound[0], "ts").is_none());
    assert!(get(&outbound[0], "source").is_none());
    assert!(get(&outbound[1], "ts").is_none());
    assert_eq!(keys(&outbound[0]), vec!["content".to_string(), "role".to_string()]);
}

#[test]
fn canonical_attachments_convert_only_at_provider_boundary() {
    let mut config = RuntimeConfig::default();
    config.protocol = "anthropic".to_string();
    let attachment = obj(vec![("kind", s("text")), ("name", s("facts.txt")), ("text", s("one"))]);
    let host = RuntimeHost::new("s1", config).with_messages(vec![obj(vec![
        ("attachments", Json::Array(vec![attachment])),
        ("content", s("Review")),
        ("role", s("user")),
    ])]);
    let outbound = host.outbound_messages();
    assert!(get(&outbound[0], "attachments").is_none());
    let content = match get(&outbound[0], "content") {
        Some(Json::Array(parts)) => parts,
        _ => panic!("content parts expected"),
    };
    assert_eq!(text_of(get(&content[0], "text")).as_deref(), Some("Review"));
    assert!(text_of(get(&content[1], "text")).unwrap().contains("facts.txt"));
}

#[test]
fn attachments_without_content_get_a_content_member_in_key_order() {
    let attachment = obj(vec![("kind", s("text")), ("name", s("a.txt")), ("text", s("x"))]);
    let host = RuntimeHost::new("s1", RuntimeConfig::default()).with_messages(vec![obj(vec![
        ("attachments", Json::Array(vec![attachment])),
        ("role", s("user")),
    ])]);
    let outbound = host.outbound_messages();
    assert_eq!(keys(&outbound[0]), vec!["content".to_string(), "role".to_string()]);
}

#[test]
fn tool_schema_validation_rejects_missing_required_arguments() {
    let schema = obj(vec![
        ("properties", obj(vec![("path", obj(vec![("type", s("string"))]))])),
        ("required", Json::Array(vec![s("path")])),
        ("type", s("object")),
    ]);
    assert!(validate_schema_value(&obj(vec![]), &schema, "arguments").is_err());
    assert!(validate_schema_value(&obj(vec![("path", s("out.txt"))]), &schema, "arguments").is_ok());
}

#[test]
fn new_host_starts_with_the_system_prompt() {
    let mut config = RuntimeConfig::default();
    config.system_prompt = Some("You help.".to_string());
    let host = RuntimeHost::new("s9", config);
    assert_eq!(host.session_id(), "s9");
    assert_eq!(host.messages().len(), 1);
    assert_eq!(text_of(get(&host.messages()[0], "role")).as_deref(), Some("system"));
    assert_eq!(text_of(get(&host.messages()[0], "content")).as_deref(), Some("You help."));
    assert!(host.run_id().is_none());
}

#[test]
fn runtime_config_switch_replaces_system_prompt_and_announces_model() {
    let mut config = RuntimeConfig::default();
    config.model = "gpt-5.5".to_string();
    config.system_prompt = Some("old".to_string());
    let mut host = RuntimeHost::new("s1", config);
    host.push_user_message("hi", Vec::new(), None, &ts());
    let mut next = RuntimeConfig::default();
    next.model_id = "together:zai-org/GLM-5.2".to_string();
    next.model = "gpt-5.6-terra".to_string();
    next.protocol = "anthropic".to_string();
    next.system_prompt = Some("new".to_string());
    let notice = host.switch_runtime_config(next, &ts());
    assert_eq!(notice.as_deref(), Some("Model switched to together:zai-org/GLM-5.2"));
    assert_eq!(host.model(), "together:zai-org/GLM-5.2");
    assert_eq!(host.config().protocol, "anthropic");
    assert_eq!(text_of(get(&host.messages()[0], "content")).as_deref(), Some("new"));
    assert_eq!(host.messages().len(), 3);
}

#[test]
fn runtime_config_without_system_prompt_drops_system_messages() {
    let mut config = RuntimeConfig::default();
    config.model = "m1".to_string();
    config.system_prompt = Some("old".to_string());
    let mut host = RuntimeHost::new("s1", config);
    let mut next = RuntimeConfig::default();
    next.model = "m1".to_string();
    assert!(host.switch_runtime_config(next, &ts()).is_none());
    assert_eq!(host.messages().len(), 0);
    let unnamed = RuntimeConfig::default();
    assert!(host.switch_runtime_config(unnamed, &ts()).is_none());
    assert_eq!(host.model(), "m1");
}

#[test]
fn steering_is_drained_into_user_messages_in_order() {
    let mut host = RuntimeHost::new("s1", RuntimeConfig::default());
    assert!(!host.drain_steering(&ts()));
    host.steer("first", None);
    host.steer("second", Some(obj(vec![("connector", s("slack"))])));
    assert!(host.provider_cancelled());
    assert!(host.drain_steering(&ts()));
    assert!(!host.drain_steering(&ts()));
    let messages = host.messages();
    assert_eq!(messages.len(), 2);
    assert_eq!(text_of(get(&messages[0], "content")).as_deref(), Some("first"));
    assert_eq!(keys(&messages[0]), vec!["content", "role", "ts"]);
    assert_eq!(keys(&messages[1]), vec!["content", "role", "source", "ts"]);
}

#[test]
fn retry_takes_the_last_error_notice() {
    let notice = obj(vec![("kind", s("error")), ("role", s("notice")), ("text", s("bad"))]);
    let mut host = RuntimeHost::new("s1", RuntimeConfig::default()).with_messages(vec![
        message("user", "a"),
        notice,
        message("assistant", "b"),
    ]);
    assert!(host.take_error_notice());
    assert_eq!(host.messages().len(), 2);
    assert!(!host.take_error_notice());
    assert_eq!(host.messages().len(), 2);
}

#[test]
fn assistant_message_records_text_and_tool_calls() {
    let mut config = RuntimeConfig::default();
    config.model = "gpt-5.5".to_string();
    let host = RuntimeHost::new("s1", config);
    let calls = vec![ToolCall {
        id: "call-1".to_string(),
        name: "read_file".to_string(),
        arguments: obj(vec![("path", s("a.txt"))]),
    }];
    let message = host.assistant_message(Some("done"), None, &calls, &ts());
    assert_eq!(keys(&message), vec!["content", "model", "role", "tool_calls", "ts"]);
    assert_eq!(text_of(get(&message, "model")).as_deref(), Some("gpt-5.5"));
    let calls = match get(&message, "tool_calls") {
        Some(Json::Array(items)) => items,
        _ => panic!("tool calls expected"),
    };
    let function = get(&calls[0], "function").unwrap();
    assert_eq!(text_of(get(function, "arguments")).as_deref(), Some("{\"path\":\"a.txt\"}"));
    assert_eq!(text_of(get(&calls[0], "type")).as_deref(), Some("function"));
}

#[test]
fn user_message_carries_attachments_and_source() {
    let mut host = RuntimeHost::new("s1", RuntimeConfig::default());
    let attachment = obj(vec![("kind", s("text")), ("name", s("a.txt")), ("text", s("x"))]);
    host.push_user_message("look", vec![attachment], Some(obj(vec![("connector", s("slack"))])), &ts());
    assert_eq!(keys(&host.messages()[0]), vec!["attachments", "content", "role", "source", "ts"]);
    let request = host.build_request();
    assert_eq!(request.protocol, "openai_chat");
    match &request.messages {
        Json::Array(items) => {
            assert_eq!(keys(&items[0]), vec!["content", "role"]);
        },
        _ => panic!("messages expected"),
    }
}
