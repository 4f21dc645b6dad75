use delta_core::json::{Json, JsonNumber};
use delta_core::provider::health::{endpoint_caps_entry, endpoint_rejected, health_update};

fn convert(value: &serde_json::Value) -> Json {
    match value {
        serde_json::Value::Null => Json::Null,
        serde_json::Value::Bool(b) => Json::Bool(*b),
        serde_json::Value::Number(n) => {
            if let Some(u) = n.as_u64() {
                Json::Number(JsonNumber::PosInt(u))
            } else if let Some(i) = n.as_i64() {
                Json::Number(JsonNumber::NegInt(i))
            } else {
                Json::Number(JsonNumber::Float(n.to_string()))
            }
        },
        serde_json::Value::String(s) => Json::String(s.clone()),
        serde_json::Value::Array(items) => Json::Array(items.iter().map(convert).collect()),
        serde_json::Value::Object(map) => {
            Json::Object(map.iter().map(|(k, v)| (k.clone(), convert(v))).collect())
        },
    }
}

fn parse(text: &str) -> Json {
    let value: serde_json::Value = serde_json::from_str(text).expect("test JSON");
    convert(&value)
}

fn float(text: &str) -> JsonNumber {
    JsonNumber::Float(text.to_string())
}

#[test]
fn first_request_creates_the_record() {
    let store = health_update(&parse("{}"), "ep", "m", true, None, Some(&float("120.5")), None, &float("1000.5"), &Vec::new());
    assert!(store.same(&parse(
        r#"{"ep":{"m":{"duration_ms":[],"errors":0,"last_error_class":null,"last_ts":1000.5,"samples":1,"ttft_ms":[120.5]}}}"#
    )));
}

#[test]
fn failures_are_counted_with_their_class() {
    let before = parse(r#"{"ep":{"m":{"samples":3,"errors":1,"ttft_ms":[],"duration_ms":[],"last_error_class":null,"last_ts":5.5}}}"#);
    let after = health_update(&before, "ep", "m", false, Some("RateLimit"), None, Some(&float("800.5")), &float("9.5"), &Vec::new());
    assert!(after.same(&parse(
        r#"{"ep":{"m":{"duration_ms":[800.5],"errors":2,"last_error_class":"RateLimit","last_ts":9.5,"samples":4,"ttft_ms":[]}}}"#
    )));
}

#[test]
fn latency_buffers_keep_the_last_two_hundred() {
    let samples: Vec<String> = (0..200).map(|i| i.to_string()).collect();
    let before = parse(&format!(r#"{{"ep":{{"m":{{"samples":200,"ttft_ms":[{}]}}}}}}"#, samples.join(",")));
    let after = health_update(&before, "ep", "m", true, None, Some(&float("200.5")), None, &float("1.5"), &Vec::new());
    let buffer = match after.get("ep").and_then(|b| b.get("m")).and_then(|r| r.get("ttft_ms")) {
        Some(Json::Array(items)) => items,
        _ => panic!("buffer expected"),
    };
    assert_eq!(buffer.len(), 200);
    assert!(buffer[0].same(&parse("1")));
    assert!(buffer[199].same(&Json::Number(float("200.5"))));
}

#[test]
fn stale_models_leave_the_endpoint() {
    let before = parse(r#"{"ep":{"old":{"samples":1},"m":{"samples":1}},"other":{"old":{"samples":1}}}"#);
    let stale = vec!["old".to_string(), "m".to_string()];
    let after = health_update(&before, "ep", "m", true, None, None, None, &float("2.5"), &stale);
    assert!(after.get("ep").unwrap().get("old").is_none());
    assert!(after.get("ep").unwrap().get("m").is_some());
    assert!(after.get("other").unwrap().get("old").is_some());
}

#[test]
fn endpoint_caps_record_refusals() {
    let store = endpoint_rejected(&parse("[]"), "https://x", "vision", &float("3.5"));
    assert!(store.same(&parse(r#"{"https://x":{"updated_at":3.5,"vision":false}}"#)));
    assert!(endpoint_caps_entry(&store, "https://x").same(&parse(r#"{"updated_at":3.5,"vision":false}"#)));
    assert!(endpoint_caps_entry(&store, "https://y").same(&parse("{}")));
    let kept = endpoint_rejected(&parse(r#"{"a":5}"#), "a", "pdf", &float("1.5"));
    assert!(kept.same(&parse(r#"{"a":5}"#)));
}
