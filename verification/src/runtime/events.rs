//! The product event protocol: the events a run emits, their versioned
//! envelope, and the sinks that deliver them.

use vstd::prelude::*;

use crate::json::{items_view, lookup, members_view, Json, JsonView, NumberView};
use crate::strmap::{ascending, StrMap};
use crate::text::{names, owned};

verus! {

/// An event of a session's run.
#[derive(Debug)]
pub enum RuntimeEvent {
    TurnStart { input: Json, attachments: Vec<Json>, source: Option<Json>, run_id: Option<String> },
    AssistantDelta { text: String },
    ReasoningDelta { text: String },
    AssistantMessage {
        message: Json,
        text: Option<String>,
        tool_calls: Vec<String>,
        reasoning: Option<String>,
        usage: Option<Json>,
    },
    ToolProposed { tool_call_id: String, name: String, arguments: Json, risk_level: Option<String> },
    ToolStarted { tool_call_id: String, name: String },
    ToolFinished { tool_call_id: String, name: String, result: Json, error: Option<String> },
    PermissionRequired { tool_call_id: String, name: String, arguments: Json, reason: String },
    DirectoryRequested { tool_call_id: String, reason: String, path: String, writable: bool },
    QuestionRequested { tool_call_id: String, arguments: Json },
    PlanProposed { tool_call_id: String, plan: String },
    IterationEnd { iteration: u64 },
    TurnEnd { status: String, iterations: u64 },
    Error { error: String, error_type: String, terminal: bool },
    Interrupted { iterations: u64 },
    Compacting,
    Compacted { text: String },
    ModelChanged { model: String },
}

/// An optional string as JSON: the string, or null.
pub open spec fn opt_text(o: Option<String>) -> JsonView {
    match o {
        Some(s) => JsonView::Str(s@),
        None => JsonView::Null,
    }
}

/// An optional value as JSON: the value, or null.
pub open spec fn opt_value(o: Option<Json>) -> JsonView {
    match o {
        Some(v) => v@,
        None => JsonView::Null,
    }
}

pub open spec fn count(n: u64) -> JsonView {
    JsonView::Number(NumberView::PosInt(n))
}

pub open spec fn text_items(v: Seq<String>) -> Seq<JsonView> {
    v.map_values(|s: String| JsonView::Str(s@))
}

/// The envelope `type` of an event.
pub open spec fn event_type(e: RuntimeEvent) -> Seq<char> {
    match e {
        RuntimeEvent::TurnStart { .. } => "turn_start"@,
        RuntimeEvent::AssistantDelta { .. } => "assistant_delta"@,
        RuntimeEvent::ReasoningDelta { .. } => "reasoning_delta"@,
        RuntimeEvent::AssistantMessage { .. } => "assistant_message"@,
        RuntimeEvent::ToolProposed { .. } => "tool_proposed"@,
        RuntimeEvent::ToolStarted { .. } => "tool_started"@,
        RuntimeEvent::ToolFinished { .. } => "tool_finished"@,
        RuntimeEvent::PermissionRequired { .. } => "permission_required"@,
        RuntimeEvent::DirectoryRequested { .. } => "directory_requested"@,
        RuntimeEvent::QuestionRequested { .. } => "question_requested"@,
        RuntimeEvent::PlanProposed { .. } => "plan_proposed"@,
        RuntimeEvent::IterationEnd { .. } => "iteration_end"@,
        RuntimeEvent::TurnEnd { .. } => "turn_end"@,
        RuntimeEvent::Error { .. } => "error"@,
        RuntimeEvent::Interrupted { .. } => "interrupted"@,
        RuntimeEvent::Compacting => "compacting"@,
        RuntimeEvent::Compacted { .. } => "compacted"@,
        RuntimeEvent::ModelChanged { .. } => "model_changed"@,
    }
}

/// The payload members of an event, keys in order. A question's payload is
/// its arguments with the tool call id laid over them (see
/// [`is_question_payload`]); it has no entry here.
pub open spec fn event_payload(e: RuntimeEvent) -> Option<Seq<(Seq<char>, JsonView)>> {
    match e {
        RuntimeEvent::TurnStart { input, attachments, source, run_id } => Some(
            seq![
                ("attachments"@, JsonView::Array(items_view(attachments@))),
                ("input"@, input@),
                ("run_id"@, opt_text(run_id)),
                ("source"@, opt_value(source)),
            ],
        ),
        RuntimeEvent::AssistantDelta { text } => Some(seq![("text"@, JsonView::Str(text@))]),
        RuntimeEvent::ReasoningDelta { text } => Some(seq![("text"@, JsonView::Str(text@))]),
        RuntimeEvent::AssistantMessage { message, text, tool_calls, reasoning, usage } => Some(
            seq![
                ("message"@, message@),
                ("reasoning"@, opt_text(reasoning)),
                ("text"@, opt_text(text)),
                ("tool_calls"@, JsonView::Array(text_items(tool_calls@))),
                ("usage"@, opt_value(usage)),
            ],
        ),
        RuntimeEvent::ToolProposed { tool_call_id, name, arguments, risk_level } => Some(
            seq![
                ("arguments"@, arguments@),
                ("name"@, JsonView::Str(name@)),
                ("risk_level"@, opt_text(risk_level)),
                ("tool_call_id"@, JsonView::Str(tool_call_id@)),
            ],
        ),
        RuntimeEvent::ToolStarted { tool_call_id, name } => Some(
            seq![("name"@, JsonView::Str(name@)), ("tool_call_id"@, JsonView::Str(tool_call_id@))],
        ),
        RuntimeEvent::ToolFinished { tool_call_id, name, result, error } => Some(
            seq![
                ("error"@, opt_text(error)),
                ("name"@, JsonView::Str(name@)),
                ("result"@, result@),
                ("tool_call_id"@, JsonView::Str(tool_call_id@)),
            ],
        ),
        RuntimeEvent::PermissionRequired { tool_call_id, name, arguments, reason } => Some(
            seq![
                ("arguments"@, arguments@),
                ("name"@, JsonView::Str(name@)),
                ("reason"@, JsonView::Str(reason@)),
                ("tool_call_id"@, JsonView::Str(tool_call_id@)),
            ],
        ),
        RuntimeEvent::DirectoryRequested { tool_call_id, reason, path, writable } => Some(
            seq![
                ("path"@, JsonView::Str(path@)),
                ("reason"@, JsonView::Str(reason@)),
                ("tool_call_id"@, JsonView::Str(tool_call_id@)),
                ("writable"@, JsonView::Bool(writable)),
            ],
        ),
        RuntimeEvent::QuestionRequested { .. } => None,
        RuntimeEvent::PlanProposed { tool_call_id, plan } => Some(
            seq![("plan"@, JsonView::Str(plan@)), ("tool_call_id"@, JsonView::Str(tool_call_id@))],
        ),
        RuntimeEvent::IterationEnd { iteration } => Some(seq![("iteration"@, count(iteration))]),
        RuntimeEvent::TurnEnd { status, iterations } => Some(
            seq![("iterations"@, count(iterations)), ("status"@, JsonView::Str(status@))],
        ),
        RuntimeEvent::Error { error, error_type, terminal } => Some(
            seq![
                ("error"@, JsonView::Str(error@)),
                ("error_type"@, JsonView::Str(error_type@)),
                ("terminal"@, JsonView::Bool(terminal)),
            ],
        ),
        RuntimeEvent::Interrupted { iterations } => Some(seq![("iterations"@, count(iterations))]),
        RuntimeEvent::Compacting => Some(Seq::empty()),
        RuntimeEvent::Compacted { text } => Some(seq![("text"@, JsonView::Str(text@))]),
        RuntimeEvent::ModelChanged { model } => Some(seq![("model"@, JsonView::Str(model@))]),
    }
}

/// A question's payload: its arguments (an object, or nothing) with
/// `tool_call_id` set, keys in order.
pub open spec fn is_question_payload(p: JsonView, arguments: JsonView, tool_call_id: Seq<char>) -> bool {
    p matches JsonView::Object(m) && ascending(m) && forall|k: Seq<char>|
        #![trigger lookup(m, k)]
        lookup(m, k) == if k == "tool_call_id"@ {
            Some(JsonView::Str(tool_call_id))
        } else {
            arguments.get(k)
        }
}

/// The only envelope the Runtime exposes to product surfaces, version 1.
pub open spec fn envelope(event_type: Seq<char>, session_id: Seq<char>, sequence: u64, payload: JsonView) -> JsonView {
    JsonView::Object(
        seq![
            ("payload"@, payload),
            ("sequence"@, count(sequence)),
            ("sessionId"@, JsonView::Str(session_id)),
            ("type"@, JsonView::Str(event_type)),
            ("version"@, count(1)),
        ],
    )
}

/// A question can only be asked with object (or absent) arguments.
pub open spec fn well_formed_event(e: RuntimeEvent) -> bool {
    e matches RuntimeEvent::QuestionRequested { arguments, .. } ==> (arguments@ is Object || arguments@ is Null)
}

fn text_json(s: &String) -> (j: Json)
    ensures
        j@ == JsonView::Str(s@),
{
    Json::String(s.clone())
}

fn opt_text_json(o: &Option<String>) -> (j: Json)
    ensures
        j@ == opt_text(*o),
{
    match o {
        Some(s) => Json::String(s.clone()),
        None => Json::Null,
    }
}

fn opt_value_json(o: &Option<Json>) -> (j: Json)
    ensures
        j@ == opt_value(*o),
{
    match o {
        Some(v) => v.deep_clone(),
        None => Json::Null,
    }
}

fn count_json(n: u64) -> (j: Json)
    ensures
        j@ == count(n),
{
    Json::Number(crate::json::JsonNumber::PosInt(n))
}

fn text_items_json(v: &Vec<String>) -> (j: Json)
    ensures
        j@ == JsonView::Array(text_items(v@)),
{
    let mut items: Vec<Json> = Vec::new();
    let mut i: usize = 0;
    while i < v.len()
        invariant
            i <= v.len(),
            items_view(items@) == text_items(v@.subrange(0, i as int)),
        decreases v.len() - i,
    {
        let item = Json::String(v[i].clone());
        proof {
            crate::json::lemma_items_view_push(items@, item);
            assert(text_items(v@.subrange(0, i + 1)) =~= text_items(v@.subrange(0, i as int)).push(
                JsonView::Str(v@[i as int]@),
            ));
        }
        items.push(item);
        i = i + 1;
    }
    assert(v@.subrange(0, i as int) =~= v@);
    Json::Array(items)
}

/// An object with the given members, their view spelled out.
fn object(members: Vec<(String, Json)>, view: Ghost<Seq<(Seq<char>, JsonView)>>) -> (j: Json)
    requires
        members_view(members@) == view@,
    ensures
        j@ == JsonView::Object(view@),
{
    Json::Object(members)
}

/// The arguments of a question with the tool call id laid over them.
fn question_payload(arguments: &Json, tool_call_id: &String) -> (p: Json)
    requires
        arguments@ is Object || arguments@ is Null,
    ensures
        is_question_payload(p@, arguments@, tool_call_id@),
{
    let mut map: StrMap<Json> = StrMap::new();
    match arguments {
        Json::Object(members) => {
            let mut i: usize = members.len();
            proof {
                lemma_members_lookup_suffix(members@, members@.len() as int);
            }
            while i > 0
                invariant
                    i <= members.len(),
                    *arguments == Json::Object(*members),
                    forall|k: Seq<char>|
                        #![trigger crate::strmap::find(map@, k)]
                        (match crate::strmap::find(map@, k) {
                            Some(v) => Some(v@),
                            None => None,
                        }) == lookup(members_view(members@).subrange(i as int, members@.len() as int), k),
                decreases i,
            {
                i = i - 1;
                proof {
                    lemma_members_lookup_suffix(members@, i as int);
                }
                map.insert(members[i].0.clone(), members[i].1.deep_clone());
            }
            proof {
                crate::json::lemma_members_view(members@);
                assert(members_view(members@).subrange(0, members@.len() as int) =~= members_view(members@));
            }
        },
        _ => {},
    }
    map.insert("tool_call_id".to_string(), Json::String(tool_call_id.clone()));
    let ghost mv = map@;
    let r = crate::json::object_from_map(map);
    proof {
        assert forall|k: Seq<char>| #![trigger lookup(crate::json::map_members(mv), k)]
            lookup(crate::json::map_members(mv), k) == if k == "tool_call_id"@ {
                Some(JsonView::Str(tool_call_id@))
            } else {
                arguments@.get(k)
            } by {
            crate::json::lemma_map_members_lookup(mv, k);
        }
    }
    r
}

/// Looking a key up in the members from `i` on: the member at `i` if it
/// has the key, else the lookup further on.
proof fn lemma_members_lookup_suffix(members: Seq<(String, Json)>, i: int)
    requires
        0 <= i <= members.len(),
    ensures
        crate::json::members_view(members).len() == members.len(),
        i < members.len() ==> forall|k: Seq<char>|
            #![trigger lookup(members_view(members).subrange(i, members.len() as int), k)]
            lookup(members_view(members).subrange(i, members.len() as int), k) == if k == members[i].0@ {
                Some(members[i].1@)
            } else {
                lookup(members_view(members).subrange(i + 1, members.len() as int), k)
            },
        i == members.len() ==> forall|k: Seq<char>|
            #![trigger lookup(members_view(members).subrange(i, members.len() as int), k)]
            lookup(members_view(members).subrange(i, members.len() as int), k) is None,
{
    crate::json::lemma_members_view(members);
    let mv = members_view(members);
    if i < members.len() {
        let s = mv.subrange(i, members.len() as int);
        assert(s.drop_first() =~= mv.subrange(i + 1, members.len() as int));
        assert(s[0] == (members[i].0@, members[i].1@));
    } else {
        assert forall|k: Seq<char>| #![trigger lookup(mv.subrange(i, members.len() as int), k)]
            lookup(mv.subrange(i, members.len() as int), k) is None by {
            assert(mv.subrange(i, members.len() as int).len() == 0);
        }
    }
}

impl RuntimeEvent {
    /// The event in its version 1 envelope for `session_id`.
    #[verifier::rlimit(80)]
    pub fn to_frame(&self, session_id: &str, sequence: u64) -> (r: Json)
        requires
            well_formed_event(*self),
        ensures
            r@ matches JsonView::Object(m) && m.len() == 5 && m[0].0 == "payload"@ && r@ == envelope(
                event_type(*self),
                session_id@,
                sequence,
                m[0].1,
            ),
            match event_payload(*self) {
                Some(p) => m_payload(r@) == JsonView::Object(p),
                None => self matches RuntimeEvent::QuestionRequested { tool_call_id, arguments }
                    && is_question_payload(m_payload(r@), arguments@, tool_call_id@),
            },
    {
        proof {
            assert(crate::json::members_view(Seq::<(String, Json)>::empty()) =~= Seq::<(Seq<char>, JsonView)>::empty());
        }
        let (event_type, payload): (&str, Json) = match self {
            RuntimeEvent::TurnStart { input, attachments, source, run_id } => {
                let items = crate::json::clone_items(attachments);
                let members = vec![
                    ("attachments".to_string(), Json::Array(items)),
                    ("input".to_string(), input.deep_clone()),
                    ("run_id".to_string(), opt_text_json(run_id)),
                    ("source".to_string(), opt_value_json(source)),
                ];
                proof {
                    crate::json::lemma_members_view(members@);
                    assert(members_view(members@) =~= event_payload(*self)->0);
                }
                ("turn_start", object(members, Ghost(event_payload(*self)->0)))
            },
            RuntimeEvent::AssistantDelta { text } => {
                let members = vec![("text".to_string(), text_json(text))];
                proof {
                    crate::json::lemma_members_view(members@);
                    assert(members_view(members@) =~= event_payload(*self)->0);
                }
                ("assistant_delta", object(members, Ghost(event_payload(*self)->0)))
            },
            RuntimeEvent::ReasoningDelta { text } => {
                let members = vec![("text".to_string(), text_json(text))];
                proof {
                    crate::json::lemma_members_view(members@);
                    assert(members_view(members@) =~= event_payload(*self)->0);
                }
                ("reasoning_delta", object(members, Ghost(event_payload(*self)->0)))
            },
            RuntimeEvent::AssistantMessage { message, text, tool_calls, reasoning, usage } => {
                let members = vec![
                    ("message".to_string(), message.deep_clone()),
                    ("reasoning".to_string(), opt_text_json(reasoning)),
                    ("text".to_string(), opt_text_json(text)),
                    ("tool_calls".to_string(), text_items_json(tool_calls)),
                    ("usage".to_string(), opt_value_json(usage)),
                ];
                proof {
                    crate::json::lemma_members_view(members@);
                    assert(members_view(members@) =~= event_payload(*self)->0);
                }
                ("assistant_message", object(members, Ghost(event_payload(*self)->0)))
            },
            RuntimeEvent::ToolProposed { tool_call_id, name, arguments, risk_level } => {
                let members = vec![
                    ("arguments".to_string(), arguments.deep_clone()),
                    ("name".to_string(), text_json(name)),
                    ("risk_level".to_string(), opt_text_json(risk_level)),
                    ("tool_call_id".to_string(), text_json(tool_call_id)),
                ];
                proof {
                    crate::json::lemma_members_view(members@);
                    assert(members_view(members@) =~= event_payload(*self)->0);
                }
                ("tool_proposed", object(members, Ghost(event_payload(*self)->0)))
            },
            RuntimeEvent::ToolStarted { tool_call_id, name } => {
                let members = vec![
                    ("name".to_string(), text_json(name)),
                    ("tool_call_id".to_string(), text_json(tool_call_id)),
                ];
                proof {
                    crate::json::lemma_members_view(members@);
                    assert(members_view(members@) =~= event_payload(*self)->0);
                }
                ("tool_started", object(members, Ghost(event_payload(*self)->0)))
            },
            RuntimeEvent::ToolFinished { tool_call_id, name, result, error } => {
                let members = vec![
                    ("error".to_string(), opt_text_json(error)),
                    ("name".to_string(), text_json(name)),
                    ("result".to_string(), result.deep_clone()),
                    ("tool_call_id".to_string(), text_json(tool_call_id)),
                ];
                proof {
                    crate::json::lemma_members_view(members@);
                    assert(members_view(members@) =~= event_payload(*self)->0);
                }
                ("tool_finished", object(members, Ghost(event_payload(*self)->0)))
            },
            RuntimeEvent::PermissionRequired { tool_call_id, name, arguments, reason } => {
                let members = vec![
                    ("arguments".to_string(), arguments.deep_clone()),
                    ("name".to_string(), text_json(name)),
                    ("reason".to_string(), text_json(reason)),
                    ("tool_call_id".to_string(), text_json(tool_call_id)),
                ];
                proof {
                    crate::json::lemma_members_view(members@);
                    assert(members_view(members@) =~= event_payload(*self)->0);
                }
                ("permission_required", object(members, Ghost(event_payload(*self)->0)))
            },
            RuntimeEvent::DirectoryRequested { tool_call_id, reason, path, writable } => {
                let members = vec![
                    ("path".to_string(), text_json(path)),
                    ("reason".to_string(), text_json(reason)),
                    ("tool_call_id".to_string(), text_json(tool_call_id)),
                    ("writable".to_string(), Json::Bool(*writable)),
                ];
                proof {
                    crate::json::lemma_members_view(members@);
                    assert(members_view(members@) =~= event_payload(*self)->0);
                }
                ("directory_requested", object(members, Ghost(event_payload(*self)->0)))
            },
            RuntimeEvent::QuestionRequested { tool_call_id, arguments } => {
                ("question_requested", question_payload(arguments, tool_call_id))
            },
            RuntimeEvent::PlanProposed { tool_call_id, plan } => {
                let members = vec![
                    ("plan".to_string(), text_json(plan)),
                    ("tool_call_id".to_string(), text_json(tool_call_id)),
                ];
                proof {
                    crate::json::lemma_members_view(members@);
                    assert(members_view(members@) =~= event_payload(*self)->0);
                }
                ("plan_proposed", object(members, Ghost(event_payload(*self)->0)))
            },
            RuntimeEvent::IterationEnd { iteration } => {
                let members = vec![("iteration".to_string(), count_json(*iteration))];
                proof {
                    crate::json::lemma_members_view(members@);
                    assert(members_view(members@) =~= event_payload(*self)->0);
                }
                ("iteration_end", object(members, Ghost(event_payload(*self)->0)))
            },
            RuntimeEvent::TurnEnd { status, iterations } => {
                let members = vec![
                    ("iterations".to_string(), count_json(*iterations)),
                    ("status".to_string(), text_json(status)),
                ];
                proof {
                    crate::json::lemma_members_view(members@);
                    assert(members_view(members@) =~= event_payload(*self)->0);
                }
                ("turn_end", object(members, Ghost(event_payload(*self)->0)))
            },
            RuntimeEvent::Error { error, error_type, terminal } => {
                let members = vec![
                    ("error".to_string(), text_json(error)),
                    ("error_type".to_string(), text_json(error_type)),
                    ("terminal".to_string(), Json::Bool(*terminal)),
                ];
                proof {
                    crate::json::lemma_members_view(members@);
                    assert(members_view(members@) =~= event_payload(*self)->0);
                }
                ("error", object(members, Ghost(event_payload(*self)->0)))
            },
            RuntimeEvent::Interrupted { iterations } => {
                let members = vec![("iterations".to_string(), count_json(*iterations))];
                proof {
                    crate::json::lemma_members_view(members@);
                    assert(members_view(members@) =~= event_payload(*self)->0);
                }
                ("interrupted", object(members, Ghost(event_payload(*self)->0)))
            },
            RuntimeEvent::Compacting => {
                ("compacting", Json::Object(Vec::new()))
            },
            RuntimeEvent::Compacted { text } => {
                let members = vec![("text".to_string(), text_json(text))];
                proof {
                    crate::json::lemma_members_view(members@);
                    assert(members_view(members@) =~= event_payload(*self)->0);
                }
                ("compacted", object(members, Ghost(event_payload(*self)->0)))
            },
            RuntimeEvent::ModelChanged { model } => {
                let members = vec![("model".to_string(), text_json(model))];
                proof {
                    crate::json::lemma_members_view(members@);
                    assert(members_view(members@) =~= event_payload(*self)->0);
                }
                ("model_changed", object(members, Ghost(event_payload(*self)->0)))
            },
        };
        let ghost pv = payload@;
        let members = vec![
            ("payload".to_string(), payload),
            ("sequence".to_string(), count_json(sequence)),
            ("sessionId".to_string(), Json::String(owned(session_id))),
            ("type".to_string(), Json::String(owned(event_type))),
            ("version".to_string(), count_json(1)),
        ];
        proof {
            crate::json::lemma_members_view(members@);
            assert(members_view(members@) =~= seq![
                ("payload"@, pv),
                ("sequence"@, count(sequence)),
                ("sessionId"@, JsonView::Str(session_id@)),
                ("type"@, JsonView::Str(event_type@)),
                ("version"@, count(1)),
            ]);
        }
        Json::Object(members)
    }
}

/// The payload of an envelope.
pub open spec fn m_payload(frame: JsonView) -> JsonView {
    match frame {
        JsonView::Object(m) => m[0].1,
        _ => JsonView::Null,
    }
}

/// `f` is `e` in its version 1 envelope for `session_id`, numbered
/// `sequence`: what `RuntimeEvent::to_frame` builds.
pub open spec fn is_frame_of(f: JsonView, e: RuntimeEvent, session_id: Seq<char>, sequence: u64) -> bool {
    &&& f matches JsonView::Object(m) && m.len() == 5 && m[0].0 == "payload"@ && f == envelope(
        event_type(e),
        session_id,
        sequence,
        m[0].1,
    )
    &&& match event_payload(e) {
        Some(p) => m_payload(f) == JsonView::Object(p),
        None => e matches RuntimeEvent::QuestionRequested { tool_call_id, arguments } && is_question_payload(
            m_payload(f),
            arguments@,
            tool_call_id@,
        ),
    }
}

/// Where a run's events go. The Runtime's own binary writes them to its
/// standard output; a desktop shell delivers them as shell events.
pub trait EventSink {
    fn emit(&self, frame: Json) -> Result<(), String>;
}

/// The silent sink: every event is dropped (tests, headless runners).
pub struct NullSink;

impl EventSink for NullSink {
    fn emit(&self, frame: Json) -> (r: Result<(), String>)
        ensures
            r is Ok,
    {
        Ok(())
    }
}

} // verus!
