use std::sync::mpsc;

use delta_core::json::Json;
use delta_core::runtime::events::RuntimeEvent;
use delta_core::runtime::interactions::{interaction_event, interaction_kind, InteractionController};
use delta_core::runtime::tools::ToolCall;

fn object(members: Vec<(&str, Json)>) -> Json {
    Json::Object(members.into_iter().map(|(k, v)| (k.to_string(), v)).collect())
}

fn answer(text: &str) -> Json {
    object(vec![("answer", Json::String(text.to_string()))])
}

fn resolve_and_send(
    controller: &mut InteractionController<mpsc::Sender<Json>>,
    kind: &str,
    id: Option<&str>,
    value: Json,
) -> Result<String, String> {
    let (key, sender) = controller.resolve(kind, id)?;
    sender.send(value).map_err(|_| format!("interaction {key} is no longer active"))?;
    Ok(key)
}

#[test]
fn interaction_controller_delivers_one_typed_response() {
    let mut controller = InteractionController::new();
    let (sender, receiver) = mpsc::channel();
    controller.begin("call-1", "question", sender).unwrap();
    resolve_and_send(&mut controller, "question", Some("call-1"), answer("A")).unwrap();
    match receiver.recv().unwrap() {
        Json::Object(members) => {
            assert_eq!(members[0].0, "answer");
            assert!(matches!(&members[0].1, Json::String(a) if a == "A"));
        }
        _ => panic!("object expected"),
    }
    assert!(resolve_and_send(&mut controller, "question", Some("call-1"), answer("B")).is_err());
}

#[test]
fn answers_must_match_the_pending_kind() {
    let mut controller = InteractionController::new();
    let (sender, _receiver) = mpsc::channel::<Json>();
    controller.begin("call-1", "plan", sender.clone()).unwrap();
    assert_eq!(
        controller.begin("call-1", "plan", sender.clone()).err().as_deref(),
        Some("interaction is already pending: call-1")
    );
    assert_eq!(
        controller.resolve("question", Some("call-1")).err().as_deref(),
        Some("interaction call-1 is not a question request")
    );
    assert_eq!(controller.resolve("question", None).err().as_deref(), Some("no pending question interaction"));
    assert_eq!(controller.resolve("plan", Some("nope")).err().as_deref(), Some("interaction not found: nope"));
    let (key, _) = controller.resolve("plan", None).unwrap();
    assert_eq!(key, "call-1");
    controller.begin("call-2", "directory", sender).unwrap();
    controller.cancel("call-2");
    assert!(controller.resolve("directory", None).is_err());
}

#[test]
fn interaction_tools_announce_their_requests() {
    assert_eq!(interaction_kind("request_directory"), Some("directory"));
    assert_eq!(interaction_kind("ask_user"), Some("question"));
    assert_eq!(interaction_kind("propose_plan"), Some("plan"));
    assert_eq!(interaction_kind("read_file"), None);
    let call = ToolCall {
        id: "c1".to_string(),
        name: "request_directory".to_string(),
        arguments: object(vec![("path", Json::String("/data".to_string())), ("writable", Json::Bool(true))]),
    };
    match interaction_event(&call, "directory") {
        RuntimeEvent::DirectoryRequested { tool_call_id, reason, path, writable } => {
            assert_eq!(tool_call_id, "c1");
            assert_eq!(reason, "");
            assert_eq!(path, "/data");
            assert!(writable);
        }
        other => panic!("unexpected event {other:?}"),
    }
}
