//! Decisions of the product control plane: how a run is started for a
//! session, how an inbox item is answered, which runtime events close an
//! automation run, and what the portable self-test accepts.
//!
//! The control plane's stores and runtime handles are the host's; each
//! function here takes what was read from them and gives what is written
//! or replied.

use vstd::prelude::*;

use crate::json::{members_view, Json, JsonView, NumberView};
use crate::runtime::tools::{ToolCall, ToolExitState, ToolResult};
use crate::text::{concat2, concat3, owned, seq_starts_with, str_eq};

verus! {

fn key(s: &str) -> (r: String)
    ensures
        r@ == s@,
{
    owned(s)
}

fn obj(members: Vec<(String, Json)>) -> (r: Json)
    ensures
        r@ == JsonView::Object(members_view(members@)),
{
    Json::Object(members)
}

/// `{"ok": false, "error": error}`.
pub open spec fn failure_view(error: Seq<char>) -> JsonView {
    JsonView::Object(seq![("error"@, JsonView::Str(error)), ("ok"@, JsonView::Bool(false))])
}

pub fn failure_reply(error: &str) -> (r: Json)
    ensures
        r@ == failure_view(error@),
{
    let members = vec![(key("error"), Json::String(owned(error))), (key("ok"), Json::Bool(false))];
    proof {
        crate::json::lemma_members_view(members@);
        assert(members_view(members@) =~= failure_view(error@)->Object_0);
    }
    obj(members)
}

/// The reply to a command for a session that has no runtime.
pub fn session_not_found(session_id: &str) -> (r: Json)
    ensures
        r@ == failure_view("session not found: "@ + session_id@),
{
    failure_reply(concat2("session not found: ", session_id).as_str())
}

// -- Starting a run ---------------------------------------------------------------------

/// How a run may act.
#[derive(Debug, Clone, Copy, PartialEq, Eq, Structural)]
pub enum ExecutionMode {
    Execute,
    Plan,
}

/// `plan` mode plans; anything else executes.
pub fn execution_mode(mode: Option<&str>) -> (m: ExecutionMode)
    ensures
        m == if mode matches Some(x) && x@ == "plan"@ {
            ExecutionMode::Plan
        } else {
            ExecutionMode::Execute
        },
{
    match mode {
        Some(x) => if str_eq(x, "plan") {
            ExecutionMode::Plan
        } else {
            ExecutionMode::Execute
        },
        None => ExecutionMode::Execute,
    }
}

pub open spec fn nonempty(o: Option<String>) -> Option<Seq<char>> {
    match o {
        Some(s) => if s@.len() > 0 {
            Some(s@)
        } else {
            None
        },
        None => None,
    }
}

/// The workspace of a run: the requested one, else the session's saved
/// one; an empty path counts as none.
pub fn start_workspace(requested: Option<String>, saved: Option<String>) -> (r: Option<String>)
    ensures
        crate::mcp::rpc::text_opt(r) == match nonempty(requested) {
            Some(w) => Some(w),
            None => nonempty(saved),
        },
{
    match requested {
        Some(w) => if !w.as_str().is_empty() {
            return Some(w);
        },
        None => {},
    }
    match saved {
        Some(w) => if !w.as_str().is_empty() {
            Some(w)
        } else {
            None
        },
        None => None,
    }
}

/// The session's saved reasoning effort overrides the model's unless it
/// is `auto`.
pub fn effort_override(saved: Option<String>) -> (r: Option<String>)
    ensures
        crate::mcp::rpc::text_opt(r) == match saved {
            Some(e) => if e@ == "auto"@ {
                None
            } else {
                Some(e@)
            },
            None => None,
        },
{
    match saved {
        Some(e) => if str_eq(e.as_str(), "auto") {
            None
        } else {
            Some(e)
        },
        None => None,
    }
}

/// A run's iteration and retry budgets: 12 and 2 unless requested.
pub fn run_limits(max_iterations: Option<usize>, max_retries: Option<u32>) -> (r: (usize, u32))
    ensures
        r.0 == match max_iterations {
            Some(n) => n,
            None => 12usize,
        },
        r.1 == match max_retries {
            Some(n) => n,
            None => 2u32,
        },
{
    (
        match max_iterations {
            Some(n) => n,
            None => 12,
        },
        match max_retries {
            Some(n) => n,
            None => 2,
        },
    )
}

pub open spec fn plan_notice() -> Seq<char> {
    "\n\nPlan mode is active. Inspect and reason, but do not perform writes until the user explicitly approves the plan."@
}

/// A skill row names `skill` and is enabled for the session.
pub open spec fn enabled_row(row: JsonView, skill: Seq<char>) -> bool {
    row.str_field("name"@) == Some(skill) && row.bool_field("enabled"@) == Some(true)
}

/// The first listed skill named `skill`.
pub open spec fn first_named(rows: Seq<JsonView>, skill: Seq<char>) -> Option<JsonView>
    decreases rows.len(),
{
    if rows.len() == 0 {
        None
    } else if rows[0].str_field("name"@) == Some(skill) {
        Some(rows[0])
    } else {
        first_named(rows.drop_first(), skill)
    }
}

/// The system prompt of a run: the agent's prompt, the plan-mode notice in
/// plan mode, and the instructions of the requested skill when the skill
/// list has it. A requested skill must be enabled for the session
/// (`session_rows`); `listed` is the skill list, when it could be read.
pub open spec fn prompt_of(
    base: Seq<char>,
    plan: bool,
    skill: Option<Seq<char>>,
    session_rows: Seq<JsonView>,
    listed: Option<Seq<JsonView>>,
) -> Result<Seq<char>, Seq<char>> {
    let with_mode = if plan {
        base + plan_notice()
    } else {
        base
    };
    match skill {
        None => Ok(with_mode),
        Some(name) => if !exists|i: int| 0 <= i < session_rows.len() && enabled_row(#[trigger] session_rows[i], name) {
            Err("skill is unavailable for this session: "@ + name)
        } else {
            match listed {
                Some(rows) => match first_named(rows, name) {
                    Some(row) => Ok(
                        with_mode + "\n\nActive skill instructions:\n"@ + crate::provider::replies::or_empty(
                            row.str_field("instructions"@),
                        ),
                    ),
                    None => Ok(with_mode),
                },
                None => Ok(with_mode),
            }
        },
    }
}

#[verifier::loop_isolation(false)]
pub fn session_prompt(
    base: &str,
    mode: Option<&str>,
    skill: Option<&str>,
    session_rows: &Vec<Json>,
    listed: Option<&Vec<Json>>,
) -> (r: Result<String, String>)
    ensures
        match prompt_of(
            base@,
            mode matches Some(m) && m@ == "plan"@,
            match skill {
                Some(s) => Some(s@),
                None => None,
            },
            crate::json::items_view(session_rows@),
            match listed {
                Some(l) => Some(crate::json::items_view(l@)),
                None => None,
            },
        ) {
            Ok(p) => r matches Ok(x) && x@ == p,
            Err(e) => r matches Err(x) && x@ == e,
        },
{
    let mut prompt = owned(base);
    if execution_mode(mode) == ExecutionMode::Plan {
        prompt.append(
            "\n\nPlan mode is active. Inspect and reason, but do not perform writes until the user explicitly approves the plan.",
        );
    }
    let ghost with_mode = prompt@;
    let name = match skill {
        Some(n) => n,
        None => {
            return Ok(prompt);
        },
    };
    proof {
        crate::json::lemma_items_view(session_rows@);
    }
    let ghost sv = crate::json::items_view(session_rows@);
    let mut enabled = false;
    let mut i: usize = 0;
    while i < session_rows.len()
        invariant
            i <= session_rows.len(),
            sv == crate::json::items_view(session_rows@),
            sv.len() == session_rows@.len(),
            prompt@ == with_mode,
            forall|x: int| 0 <= x < session_rows@.len() ==> #[trigger] sv[x] == session_rows@[x]@,
            enabled <==> exists|x: int| 0 <= x < i && enabled_row(#[trigger] sv[x], name@),
        decreases session_rows.len() - i,
    {
        let row = &session_rows[i];
        let named = match row.str_field("name") {
            Some(n) => str_eq(n, name),
            None => false,
        };
        let on = match row.bool_field("enabled") {
            Some(b) => b,
            None => false,
        };
        if named && on {
            enabled = true;
        }
        proof {
            assert(sv[i as int] == row@);
        }
        i = i + 1;
    }
    if !enabled {
        return Err(concat2("skill is unavailable for this session: ", name));
    }
    match listed {
        Some(rows) => {
            proof {
                crate::json::lemma_items_view(rows@);
            }
            let ghost lv = crate::json::items_view(rows@);
            let mut j: usize = 0;
            proof {
                assert(lv.subrange(0, lv.len() as int) =~= lv);
            }
            while j < rows.len()
                invariant
                    j <= rows.len(),
                    lv == crate::json::items_view(rows@),
                    lv.len() == rows@.len(),
                    prompt@ == with_mode,
                    forall|x: int| 0 <= x < rows@.len() ==> #[trigger] lv[x] == rows@[x]@,
                    first_named(lv, name@) == first_named(lv.subrange(j as int, lv.len() as int), name@),
                decreases rows.len() - j,
            {
                proof {
                    assert(lv.subrange(j as int, lv.len() as int).drop_first() =~= lv.subrange(j + 1, lv.len() as int));
                    assert(lv[j as int] == rows@[j as int]@);
                }
                let row = &rows[j];
                let named = match row.str_field("name") {
                    Some(n) => str_eq(n, name),
                    None => false,
                };
                if named {
                    prompt.append("\n\nActive skill instructions:\n");
                    match row.str_field("instructions") {
                        Some(t) => prompt.append(t),
                        None => {
                            assert(prompt@ + crate::provider::replies::or_empty(None) =~= prompt@);
                        },
                    }
                    return Ok(prompt);
                }
                j = j + 1;
            }
            Ok(prompt)
        },
        None => Ok(prompt),
    }
}

/// The reply to a start refused because the session already runs.
pub fn active_run_reply(session_id: &str) -> (r: Json)
    ensures
        r@ == failure_view("session "@ + session_id@ + " already has an active run"@),
{
    failure_reply(concat3("session ", session_id, " already has an active run").as_str())
}

/// The reply to an accepted run: its id and the runtime's state.
pub fn accepted_reply(run_id: String, state: Json) -> (r: Json)
    ensures
        r@ == JsonView::Object(
            seq![
                ("accepted"@, JsonView::Bool(true)),
                ("ok"@, JsonView::Bool(true)),
                ("runId"@, JsonView::Str(run_id@)),
                ("state"@, state@),
            ],
        ),
{
    let ghost rv = run_id@;
    let ghost sv = state@;
    let members = vec![
        (key("accepted"), Json::Bool(true)),
        (key("ok"), Json::Bool(true)),
        (key("runId"), Json::String(run_id)),
        (key("state"), state),
    ];
    proof {
        crate::json::lemma_members_view(members@);
        assert(members_view(members@) =~= seq![
            ("accepted"@, JsonView::Bool(true)),
            ("ok"@, JsonView::Bool(true)),
            ("runId"@, JsonView::Str(rv)),
            ("state"@, sv),
        ]);
    }
    obj(members)
}

// -- Answering an inbox item -------------------------------------------------------------

/// An affirmative answer.
pub open spec fn approves(resolution: Seq<char>) -> bool {
    resolution == "allow"@ || resolution == "approve"@ || resolution == "approved"@ || resolution == "yes"@
}

fn approves_exec(resolution: &str) -> (r: bool)
    ensures
        r == approves(resolution@),
{
    str_eq(resolution, "allow") || str_eq(resolution, "approve") || str_eq(resolution, "approved") || str_eq(
        resolution,
        "yes",
    )
}

/// The approval decision an inbox resolution stands for: an affirmative
/// answer approves once, the `always_*` scopes are kept, anything else
/// denies.
pub open spec fn approval_decision_of(resolution: Seq<char>) -> Seq<char> {
    if approves(resolution) {
        "once"@
    } else if resolution == "always_tool"@ {
        "always_tool"@
    } else if resolution == "always_command"@ {
        "always_command"@
    } else if resolution == "always_task"@ {
        "always_task"@
    } else {
        "deny"@
    }
}

pub fn approval_decision(resolution: &str) -> (r: &'static str)
    ensures
        r@ == approval_decision_of(resolution@),
{
    if approves_exec(resolution) {
        "once"
    } else if str_eq(resolution, "always_tool") {
        "always_tool"
    } else if str_eq(resolution, "always_command") {
        "always_command"
    } else if str_eq(resolution, "always_task") {
        "always_task"
    } else {
        "deny"
    }
}

/// `{"granted": .., "path": .., "writable": ..}` for a directory request
/// answered without a JSON object.
pub open spec fn directory_grant(resolution: Seq<char>, data: JsonView) -> JsonView {
    JsonView::Object(
        seq![
            ("granted"@, JsonView::Bool(approves(resolution))),
            ("path"@, crate::provider::bodies::or_null(data.get("path"@))),
            ("writable"@, match data.get("writable"@) {
                Some(w) => w,
                None => JsonView::Bool(false),
            }),
        ],
    )
}

fn directory_grant_exec(resolution: &str, data: &Json) -> (r: Json)
    ensures
        r@ == directory_grant(resolution@, data@),
{
    let path = match data.get("path") {
        Some(p) => p.deep_clone(),
        None => Json::Null,
    };
    let writable = match data.get("writable") {
        Some(w) => w.deep_clone(),
        None => Json::Bool(false),
    };
    let ghost pv = path@;
    let ghost wv = writable@;
    let members = vec![
        (key("granted"), Json::Bool(approves_exec(resolution))),
        (key("path"), path),
        (key("writable"), writable),
    ];
    proof {
        crate::json::lemma_members_view(members@);
        assert(members_view(members@) =~= directory_grant(resolution@, data@)->Object_0);
    }
    obj(members)
}

/// The response an interaction inbox item of `kind` is answered with:
/// a question gets the answer; a directory request the decoded answer when
/// it is an object, else a grant of the requested path when the answer is
/// affirmative; a plan its approval, with the answer as feedback when not
/// affirmative. `None` for other kinds.
pub open spec fn interaction_response_of(
    kind: Seq<char>,
    resolution: Seq<char>,
    decoded: Option<JsonView>,
    data: JsonView,
) -> Option<JsonView> {
    if kind == "question"@ {
        Some(JsonView::Object(seq![("answer"@, JsonView::Str(resolution))]))
    } else if kind == "directory"@ {
        match decoded {
            Some(JsonView::Object(m)) => Some(JsonView::Object(m)),
            _ => Some(directory_grant(resolution, data)),
        }
    } else if kind == "plan"@ {
        Some(
            JsonView::Object(
                seq![
                    ("approved"@, JsonView::Bool(approves(resolution))),
                    ("feedback"@, if approves(resolution) {
                        JsonView::Null
                    } else {
                        JsonView::Str(resolution)
                    }),
                ],
            ),
        )
    } else {
        None
    }
}

/// The response to an interaction inbox item; `decoded` is the answer
/// decoded as JSON, when it decodes.
pub fn interaction_response(kind: &str, resolution: &str, decoded: Option<Json>, data: &Json) -> (r: Option<Json>)
    ensures
        match interaction_response_of(
            kind@,
            resolution@,
            match decoded {
                Some(d) => Some(d@),
                None => None,
            },
            data@,
        ) {
            Some(v) => r matches Some(x) && x@ == v,
            None => r is None,
        },
{
    if str_eq(kind, "question") {
        let members = vec![(key("answer"), Json::String(owned(resolution)))];
        proof {
            crate::json::lemma_members_view(members@);
            assert(members_view(members@) =~= seq![("answer"@, JsonView::Str(resolution@))]);
        }
        Some(obj(members))
    } else if str_eq(kind, "directory") {
        match decoded {
            Some(d) => {
                if d.is_object() {
                    return Some(d);
                }
            },
            None => {},
        }
        Some(directory_grant_exec(resolution, data))
    } else if str_eq(kind, "plan") {
        let approved = approves_exec(resolution);
        let feedback = if approved {
            Json::Null
        } else {
            Json::String(owned(resolution))
        };
        let ghost fv = feedback@;
        let members = vec![(key("approved"), Json::Bool(approved)), (key("feedback"), feedback)];
        proof {
            crate::json::lemma_members_view(members@);
            assert(members_view(members@) =~= seq![("approved"@, JsonView::Bool(approved)), ("feedback"@, fv)]);
        }
        Some(obj(members))
    } else {
        None
    }
}

// -- Automation runs ---------------------------------------------------------------------

/// The session of an automation run.
pub fn automation_session(run_id: &str) -> (r: String)
    ensures
        r@ == "__run__"@ + run_id@,
{
    concat2("__run__", run_id)
}

/// Whether a runtime event closes the automation run it belongs to: a
/// `turn_end`, `interrupted` or `error` event of an automation session.
/// Gives the session and the recovery record
/// `{"event": type, "payload": payload or {}}`.
pub open spec fn closing_event(frame: JsonView) -> Option<(Seq<char>, JsonView)> {
    let t = crate::provider::replies::or_empty(frame.str_field("type"@));
    if t == "turn_end"@ || t == "interrupted"@ || t == "error"@ {
        match frame.str_field("sessionId"@) {
            Some(s) => if seq_starts_with(s, "__run__"@) {
                Some(
                    (
                        s,
                        JsonView::Object(
                            seq![
                                ("event"@, JsonView::Str(t)),
                                ("payload"@, match frame.get("payload"@) {
                                    Some(p) => p,
                                    None => JsonView::Object(Seq::empty()),
                                }),
                            ],
                        ),
                    ),
                )
            } else {
                None
            },
            None => None,
        }
    } else {
        None
    }
}

pub fn closing_recovery(frame: &Json) -> (r: Option<(String, Json)>)
    ensures
        match closing_event(frame@) {
            Some((s, rec)) => r matches Some(x) && x.0@ == s && x.1@ == rec,
            None => r is None,
        },
{
    let t = match frame.str_field("type") {
        Some(t) => t,
        None => "",
    };
    proof {
        reveal_strlit("");
        assert(""@ =~= Seq::<char>::empty());
    }
    if !(str_eq(t, "turn_end") || str_eq(t, "interrupted") || str_eq(t, "error")) {
        return None;
    }
    let session = match frame.str_field("sessionId") {
        Some(s) => s,
        None => {
            return None;
        },
    };
    if !crate::text::starts_with(session, "__run__") {
        return None;
    }
    let payload = match frame.get("payload") {
        Some(p) => p.deep_clone(),
        None => {
            let none: Vec<(String, Json)> = Vec::new();
            proof {
                crate::json::lemma_members_view(none@);
                assert(members_view(none@) =~= Seq::<(Seq<char>, JsonView)>::empty());
            }
            obj(none)
        },
    };
    let ghost pv = payload@;
    let members = vec![(key("event"), Json::String(owned(t))), (key("payload"), payload)];
    proof {
        crate::json::lemma_members_view(members@);
        let (_, record) = closing_event(frame@).unwrap();
        assert(members_view(members@) =~= record->Object_0);
    }
    Some((owned(session), obj(members)))
}

/// The payload recorded when an automation run could not start.
pub open spec fn start_failure_payload(error: JsonView) -> JsonView {
    JsonView::Object(
        seq![
            ("error"@, error),
            ("error_type"@, JsonView::Str("automation_start_failed"@)),
            ("terminal"@, JsonView::Bool(true)),
        ],
    )
}

/// The runtime event and the recovery record of an automation run that
/// could not start: an `error` event of version 1 at sequence 0.
pub fn start_failure_records(session_id: &str, error: Json) -> (r: (Json, Json))
    ensures
        r.0@ == JsonView::Object(
            seq![
                ("payload"@, start_failure_payload(error@)),
                ("sequence"@, JsonView::Number(NumberView::PosInt(0))),
                ("sessionId"@, JsonView::Str(session_id@)),
                ("type"@, JsonView::Str("error"@)),
                ("version"@, JsonView::Number(NumberView::PosInt(1))),
            ],
        ),
        r.1@ == JsonView::Object(
            seq![("event"@, JsonView::Str("error"@)), ("payload"@, start_failure_payload(error@))],
        ),
{
    let ghost ev = error@;
    let payload_of = |e: Json| -> (p: Json)
        ensures
            p@ == start_failure_payload(e@),
        {
            let ghost x = e@;
            let members = vec![
                (owned("error"), e),
                (owned("error_type"), Json::String(owned("automation_start_failed"))),
                (owned("terminal"), Json::Bool(true)),
            ];
            proof {
                crate::json::lemma_members_view(members@);
                assert(members_view(members@) =~= start_failure_payload(x)->Object_0);
            }
            Json::Object(members)
        };
    let copy = error.deep_clone();
    let frame_members = vec![
        (key("payload"), payload_of(copy)),
        (key("sequence"), Json::Number(crate::json::JsonNumber::PosInt(0))),
        (key("sessionId"), Json::String(owned(session_id))),
        (key("type"), Json::String(key("error"))),
        (key("version"), Json::Number(crate::json::JsonNumber::PosInt(1))),
    ];
    let recovery_members = vec![(key("event"), Json::String(key("error"))), (key("payload"), payload_of(error))];
    proof {
        crate::json::lemma_members_view(frame_members@);
        crate::json::lemma_members_view(recovery_members@);
        assert(members_view(frame_members@) =~= seq![
            ("payload"@, start_failure_payload(ev)),
            ("sequence"@, JsonView::Number(NumberView::PosInt(0))),
            ("sessionId"@, JsonView::Str(session_id@)),
            ("type"@, JsonView::Str("error"@)),
            ("version"@, JsonView::Number(NumberView::PosInt(1))),
        ]);
        assert(members_view(recovery_members@) =~= seq![
            ("event"@, JsonView::Str("error"@)),
            ("payload"@, start_failure_payload(ev)),
        ]);
    }
    (obj(frame_members), obj(recovery_members))
}

// -- Capability calls from the product ---------------------------------------------------

/// The reply to a capability invoked from the product: its output, or,
/// when it failed, `{"ok": false, "available": false, "error": …, "result": output}`.
pub fn capability_reply(result: ToolResult) -> (r: Json)
    ensures
        match result.error {
            Some(e) => r@ == JsonView::Object(
                seq![
                    ("available"@, JsonView::Bool(false)),
                    ("error"@, JsonView::Str(e@)),
                    ("ok"@, JsonView::Bool(false)),
                    ("result"@, result.output@),
                ],
            ),
            None => r@ == result.output@,
        },
{
    let ghost ov = result.output@;
    match result.error {
        Some(e) => {
            let ghost errv = e@;
            let members = vec![
                (key("available"), Json::Bool(false)),
                (key("error"), Json::String(e)),
                (key("ok"), Json::Bool(false)),
                (key("result"), result.output),
            ];
            proof {
                crate::json::lemma_members_view(members@);
                assert(members_view(members@) =~= seq![
                    ("available"@, JsonView::Bool(false)),
                    ("error"@, JsonView::Str(errv)),
                    ("ok"@, JsonView::Bool(false)),
                    ("result"@, ov),
                ]);
            }
            obj(members)
        },
        None => result.output,
    }
}

/// The page size of the audit list: 100 unless asked, kept within 1..=500.
pub fn audit_limit(limit: Option<usize>) -> (r: usize)
    ensures
        r == match limit {
            Some(n) => if n < 1 {
                1
            } else if n > 500 {
                500
            } else {
                n
            },
            None => 100,
        },
{
    match limit {
        Some(n) => if n < 1 {
            1
        } else if n > 500 {
            500
        } else {
            n
        },
        None => 100,
    }
}

/// The default model of the settings: their `model`, or empty.
pub fn default_model_id(settings: &Json) -> (r: String)
    ensures
        r@ == crate::provider::replies::or_empty(settings@.str_field("model"@)),
{
    match settings.str_field("model") {
        Some(m) => owned(m),
        None => String::new(),
    }
}

// -- The portable self-test ----------------------------------------------------------------

/// The text the self-test's probe file holds.
pub open spec fn probe_text() -> Seq<char> {
    "delta-runtime-ready"@
}

pub fn probe_contents() -> (r: &'static str)
    ensures
        r@ == probe_text(),
{
    "delta-runtime-ready"
}

/// The runtime's authorities initialized: the settings are an object and
/// the tool schemas an array.
pub fn check_initialized(settings: &Json, tool_schemas: &Json) -> (r: Result<(), String>)
    ensures
        r is Ok <==> (settings@ is Object && tool_schemas@ is Array),
        r matches Err(e) ==> e@ == "embedded Runtime authorities did not initialize"@,
{
    let schemas_array = match tool_schemas {
        Json::Array(_) => true,
        _ => false,
    };
    if !settings.is_object() || !schemas_array {
        return Err("embedded Runtime authorities did not initialize".to_string());
    }
    Ok(())
}

/// The self-test's call: `read_file` of the probe.
pub fn probe_call() -> (c: ToolCall)
    ensures
        c.id@ == "portable-self-test"@,
        c.name@ == "read_file"@,
        c.arguments@ == JsonView::Object(seq![("path"@, JsonView::Str("probe.txt"@))]),
{
    let members = vec![(key("path"), Json::String(key("probe.txt")))];
    proof {
        crate::json::lemma_members_view(members@);
        assert(members_view(members@) =~= seq![("path"@, JsonView::Str("probe.txt"@))]);
    }
    ToolCall { id: key("portable-self-test"), name: key("read_file"), arguments: obj(members) }
}

/// A state as `{:?}` writes it.
pub open spec fn state_name(s: ToolExitState) -> Seq<char> {
    match s {
        ToolExitState::Completed => "Completed"@,
        ToolExitState::Failed => "Failed"@,
        ToolExitState::Cancelled => "Cancelled"@,
        ToolExitState::TimedOut => "TimedOut"@,
    }
}

/// The self-test passes when the probe was read back completely.
pub fn probe_verdict(result: &ToolResult) -> (r: Result<(), String>)
    ensures
        r is Ok <==> (result.state == ToolExitState::Completed && result.output@.str_field("text"@) == Some(probe_text())),
        r matches Err(e) ==> e@ == "native capability self-test failed: "@ + state_name(result.state),
{
    let completed = match result.state {
        ToolExitState::Completed => true,
        _ => false,
    };
    let read_back = match result.output.str_field("text") {
        Some(t) => str_eq(t, probe_contents()),
        None => false,
    };
    if completed && read_back {
        return Ok(());
    }
    let name = match result.state {
        ToolExitState::Completed => "Completed",
        ToolExitState::Failed => "Failed",
        ToolExitState::Cancelled => "Cancelled",
        ToolExitState::TimedOut => "TimedOut",
    };
    Err(concat2("native capability self-test failed: ", name))
}

} // verus!
