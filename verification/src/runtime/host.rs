//! The state a session's runtime keeps between model turns: its
//! configuration, the message history, the declared tools, the queued
//! steering instructions and the cancellation flags.
//!
//! The turn loop that calls the provider and executes tools is the host's;
//! each operation here is one step of it on this state. Timestamps come in
//! as the JSON number the host read from its clock.

use vstd::prelude::*;

use crate::binary64::Binary64;
use crate::core_control::ExecutionMode;
use crate::json::{items_view, members_view, Json, JsonNumber, JsonView, NumberView};
use crate::runtime::tools::ToolCall;
use crate::mcp::rpc::text_opt;
use crate::provider::replies::or_empty;
use crate::runtime::content::{provider_user_content, user_content};
use crate::strmap::seq_less;
use crate::text::{concat2, owned, str_eq};

verus! {

broadcast use vstd::std_specs::vec::group_vec_axioms;

/// The iteration budget of a run unless the session sets one.
pub const DEFAULT_MAX_ITERATIONS: usize = 12;

pub struct RuntimeConfig {
    /// Product-facing routed id (for example `openrouter:z-ai/glm-5.2`);
    /// `model` is the provider-facing bare id.
    pub model_id: String,
    pub model: String,
    pub protocol: String,
    pub api_key: String,
    pub base_url: String,
    pub max_iterations: usize,
    pub max_retries: u32,
    pub ttft_timeout: Option<Binary64>,
    pub tool_timeout: Option<Binary64>,
    pub model_settings: Json,
    pub system_prompt: Option<String>,
    pub workspace: Option<String>,
    /// Unattended runs park approval requests in the inbox.
    pub unattended: bool,
    pub mode: ExecutionMode,
}

pub struct ConfigView {
    pub model_id: Seq<char>,
    pub model: Seq<char>,
    pub protocol: Seq<char>,
    pub api_key: Seq<char>,
    pub base_url: Seq<char>,
    pub max_iterations: usize,
    pub max_retries: u32,
    pub ttft_timeout: Option<Binary64>,
    pub tool_timeout: Option<Binary64>,
    pub model_settings: JsonView,
    pub system_prompt: Option<Seq<char>>,
    pub workspace: Option<Seq<char>>,
    pub unattended: bool,
    pub mode: ExecutionMode,
}

impl View for RuntimeConfig {
    type V = ConfigView;

    open spec fn view(&self) -> ConfigView {
        ConfigView {
            model_id: self.model_id@,
            model: self.model@,
            protocol: self.protocol@,
            api_key: self.api_key@,
            base_url: self.base_url@,
            max_iterations: self.max_iterations,
            max_retries: self.max_retries,
            ttft_timeout: self.ttft_timeout,
            tool_timeout: self.tool_timeout,
            model_settings: self.model_settings@,
            system_prompt: text_opt(self.system_prompt),
            workspace: text_opt(self.workspace),
            unattended: self.unattended,
            mode: self.mode,
        }
    }
}

impl Default for RuntimeConfig {
    fn default() -> (c: Self)
        ensures
            c@ == (ConfigView {
                model_id: Seq::empty(),
                model: Seq::empty(),
                protocol: "openai_chat"@,
                api_key: Seq::empty(),
                base_url: "https://api.openai.com/v1"@,
                max_iterations: DEFAULT_MAX_ITERATIONS,
                max_retries: 2,
                ttft_timeout: None,
                tool_timeout: None,
                model_settings: JsonView::Object(Seq::empty()),
                system_prompt: None,
                workspace: None,
                unattended: false,
                mode: ExecutionMode::Execute,
            }),
    {
        let settings: Vec<(String, Json)> = Vec::new();
        proof {
            crate::json::lemma_members_view(settings@);
            assert(members_view(settings@) =~= Seq::<(Seq<char>, JsonView)>::empty());
        }
        RuntimeConfig {
            model_id: String::new(),
            model: String::new(),
            protocol: owned("openai_chat"),
            api_key: String::new(),
            base_url: owned("https://api.openai.com/v1"),
            max_iterations: DEFAULT_MAX_ITERATIONS,
            max_retries: 2,
            ttft_timeout: None,
            tool_timeout: None,
            model_settings: Json::Object(settings),
            system_prompt: None,
            workspace: None,
            unattended: false,
            mode: ExecutionMode::Execute,
        }
    }
}

/// The model a configuration names: its routed id, else its bare id.
pub open spec fn model_of(c: ConfigView) -> Seq<char> {
    if c.model_id.len() == 0 {
        c.model
    } else {
        c.model_id
    }
}

pub struct RuntimeHost {
    config: RuntimeConfig,
    messages: Vec<Json>,
    cancel: bool,
    provider_cancel: bool,
    steering: Vec<(String, Option<Json>)>,
    session_id: String,
    tools: Option<Json>,
    run_id: Option<String>,
}

pub open spec fn json_opt(o: Option<Json>) -> Option<JsonView> {
    match o {
        Some(j) => Some(j@),
        None => None,
    }
}

pub open spec fn steering_view(q: Seq<(String, Option<Json>)>) -> Seq<(Seq<char>, Option<JsonView>)> {
    q.map_values(|e: (String, Option<Json>)| (e.0@, json_opt(e.1)))
}

pub struct HostView {
    pub config: ConfigView,
    pub messages: Seq<JsonView>,
    pub cancel: bool,
    pub provider_cancel: bool,
    pub steering: Seq<(Seq<char>, Option<JsonView>)>,
    pub session_id: Seq<char>,
    pub tools: Option<JsonView>,
    pub run_id: Option<Seq<char>>,
}

impl View for RuntimeHost {
    type V = HostView;

    closed spec fn view(&self) -> HostView {
        HostView {
            config: self.config@,
            messages: items_view(self.messages@),
            cancel: self.cancel,
            provider_cancel: self.provider_cancel,
            steering: steering_view(self.steering@),
            session_id: self.session_id@,
            tools: json_opt(self.tools),
            run_id: text_opt(self.run_id),
        }
    }
}

/// `{"content": text, "role": role}`.
pub open spec fn role_message(role: Seq<char>, text: Seq<char>) -> JsonView {
    JsonView::Object(seq![("content"@, JsonView::Str(text)), ("role"@, JsonView::Str(role))])
}

fn role_message_exec(role: &str, text: &str) -> (r: Json)
    ensures
        r@ == role_message(role@, text@),
{
    let members = vec![(owned("content"), Json::String(owned(text))), (owned("role"), Json::String(owned(role)))];
    proof {
        crate::json::lemma_members_view(members@);
        assert(members_view(members@) =~= role_message(role@, text@)->Object_0);
    }
    Json::Object(members)
}

impl RuntimeHost {
    /// A host for `session_id`: the history holds the system prompt, when
    /// the configuration has one.
    pub fn new(session_id: &str, config: RuntimeConfig) -> (h: Self)
        ensures
            h@.config == config@,
            h@.messages == match config@.system_prompt {
                Some(p) => seq![role_message("system"@, p)],
                None => Seq::<JsonView>::empty(),
            },
            !h@.cancel,
            !h@.provider_cancel,
            h@.steering.len() == 0,
            h@.session_id == session_id@,
            h@.tools is None,
            h@.run_id is None,
    {
        let mut messages: Vec<Json> = Vec::new();
        match &config.system_prompt {
            Some(sys) => {
                messages.push(role_message_exec("system", sys.as_str()));
            },
            None => {},
        }
        proof {
            crate::json::lemma_items_view(messages@);
        }
        let steering: Vec<(String, Option<Json>)> = Vec::new();
        let h = RuntimeHost {
            config,
            messages,
            cancel: false,
            provider_cancel: false,
            steering,
            session_id: owned(session_id),
            tools: None,
            run_id: None,
        };
        proof {
            assert(h@.messages =~= match config@.system_prompt {
                Some(p) => seq![role_message("system"@, p)],
                None => Seq::<JsonView>::empty(),
            });
        }
        h
    }

    pub fn with_tools(self, tools: Json) -> (h: Self)
        ensures
            h@ == (HostView { tools: Some(tools@), ..self@ }),
    {
        let mut h = self;
        h.tools = Some(tools);
        h
    }

    /// Replace the declared tools.
    pub fn replace_tools(&mut self, tools: Json)
        ensures
            final(self)@ == (HostView { tools: Some(tools@), ..old(self)@ }),
    {
        self.tools = Some(tools);
    }

    pub fn with_messages(self, messages: Vec<Json>) -> (h: Self)
        ensures
            h@ == (HostView { messages: items_view(messages@), ..self@ }),
    {
        let mut h = self;
        h.messages = messages;
        h
    }

    pub fn with_run_id(self, run_id: String) -> (h: Self)
        ensures
            h@ == (HostView { run_id: Some(run_id@), ..self@ }),
    {
        let mut h = self;
        h.run_id = Some(run_id);
        h
    }

    pub fn set_run_id(&mut self, run_id: String)
        ensures
            final(self)@ == (HostView { run_id: Some(run_id@), ..old(self)@ }),
    {
        self.run_id = Some(run_id);
    }

    /// Clear both cancellation flags.
    pub fn reset_cancel(&mut self)
        ensures
            final(self)@ == (HostView { cancel: false, provider_cancel: false, ..old(self)@ }),
    {
        self.cancel = false;
        self.provider_cancel = false;
    }

    /// Cancel the run and the provider request in flight.
    pub fn cancel(&mut self)
        ensures
            final(self)@ == (HostView { cancel: true, provider_cancel: true, ..old(self)@ }),
    {
        self.cancel = true;
        self.provider_cancel = true;
    }

    pub fn is_cancelled(&self) -> (b: bool)
        ensures
            b == self@.cancel,
    {
        self.cancel
    }

    pub fn provider_cancelled(&self) -> (b: bool)
        ensures
            b == self@.provider_cancel,
    {
        self.provider_cancel
    }

    /// Queue a steering instruction and interrupt the provider request so
    /// the next turn sees it.
    pub fn steer(&mut self, text: &str, source: Option<Json>)
        ensures
            final(self)@ == (HostView {
                steering: old(self)@.steering.push((text@, json_opt(source))),
                provider_cancel: true,
                ..old(self)@
            }),
    {
        let ghost sv = json_opt(source);
        self.steering.push((owned(text), source));
        self.provider_cancel = true;
        proof {
            assert(steering_view(self.steering@) =~= steering_view(old(self).steering@).push((text@, sv)));
        }
    }

    /// The model the session runs on.
    pub fn model(&self) -> (m: &str)
        ensures
            m@ == model_of(self@.config),
    {
        if self.config.model_id.as_str().is_empty() {
            self.config.model.as_str()
        } else {
            self.config.model_id.as_str()
        }
    }

    pub fn messages(&self) -> (m: &Vec<Json>)
        ensures
            items_view(m@) == self@.messages,
    {
        &self.messages
    }

    pub fn tools(&self) -> (t: &Option<Json>)
        ensures
            json_opt(*t) == self@.tools,
    {
        &self.tools
    }

    pub fn config(&self) -> (c: &RuntimeConfig)
        ensures
            c@ == self@.config,
    {
        &self.config
    }

    pub fn session_id(&self) -> (s: &str)
        ensures
            s@ == self@.session_id,
    {
        self.session_id.as_str()
    }

    pub fn run_id(&self) -> (r: Option<&str>)
        ensures
            match r {
                Some(x) => self@.run_id == Some(x@),
                None => self@.run_id is None,
            },
    {
        match &self.run_id {
            Some(id) => Some(id.as_str()),
            None => None,
        }
    }

    /// Keep the first `index` messages; an index past the history keeps it.
    pub fn truncate_messages(&mut self, index: usize)
        ensures
            final(self)@ == (HostView {
                messages: if index < old(self)@.messages.len() {
                    old(self)@.messages.take(index as int)
                } else {
                    old(self)@.messages
                },
                ..old(self)@
            }),
    {
        proof {
            crate::json::lemma_items_view(self.messages@);
        }
        if index < self.messages.len() {
            self.messages.truncate(index);
            proof {
                crate::json::lemma_items_view(self.messages@);
                assert(items_view(self.messages@) =~= items_view(old(self).messages@).take(index as int));
            }
        }
    }
}


// -- What the provider is sent -------------------------------------------------------

/// Keys the history keeps beside a message that providers do not take.
pub open spec fn is_sidecar(k: Seq<char>) -> bool {
    k == "source"@ || k == "_display"@ || k == "ts"@ || k == "reasoning"@ || k == "usage"@ || k == "attachments"@
        || k == "run_id"@
}

/// The members that are not sidecars, in order.
pub open spec fn kept_members(ms: Seq<(Seq<char>, JsonView)>) -> Seq<(Seq<char>, JsonView)>
    decreases ms.len(),
{
    if ms.len() == 0 {
        Seq::empty()
    } else {
        let rest = kept_members(ms.drop_last());
        if is_sidecar(ms.last().0) {
            rest
        } else {
            rest.push(ms.last())
        }
    }
}

/// A message without its sidecars.
pub open spec fn stripped(m: JsonView) -> JsonView {
    match m {
        JsonView::Object(ms) => JsonView::Object(kept_members(ms)),
        _ => m,
    }
}

/// Where `k` goes among `ms`: the first member named `k` or ordered after it.
pub open spec fn stop_index(ms: Seq<(Seq<char>, JsonView)>, k: Seq<char>) -> nat
    decreases ms.len(),
{
    if ms.len() == 0 {
        0
    } else if ms[0].0 == k || seq_less(k, ms[0].0) {
        0
    } else {
        1 + stop_index(ms.drop_first(), k)
    }
}

/// `object[k] = v` on an object whose keys ascend: the member named `k`
/// takes the value, or a new member goes where its key orders.
pub open spec fn put_member(ms: Seq<(Seq<char>, JsonView)>, k: Seq<char>, v: JsonView) -> Seq<(Seq<char>, JsonView)> {
    let i = stop_index(ms, k);
    if i < ms.len() && ms[i as int].0 == k {
        ms.update(i as int, (k, v))
    } else {
        ms.insert(i as int, (k, v))
    }
}

pub open spec fn members_of(v: JsonView) -> Seq<(Seq<char>, JsonView)> {
    match v {
        JsonView::Object(ms) => ms,
        _ => Seq::empty(),
    }
}

pub open spec fn is_notice(m: JsonView) -> bool {
    m.str_field("role"@) == Some("notice"@)
}

/// A history message as the provider is sent it: without sidecars, and a
/// user message with attachments carries them as the protocol's content
/// parts.
pub open spec fn outbound_message(protocol: Seq<char>, m: JsonView) -> JsonView {
    let base = stripped(m);
    if m.str_field("role"@) == Some("user"@) {
        match m.get("attachments"@) {
            Some(JsonView::Array(a)) => if a.len() > 0 {
                JsonView::Object(
                    put_member(
                        members_of(base),
                        "content"@,
                        user_content(protocol, or_empty(m.str_field("content"@)), a),
                    ),
                )
            } else {
                base
            },
            _ => base,
        }
    } else {
        base
    }
}

/// The history as the provider is sent it: notices left out.
pub open spec fn outbound_of(protocol: Seq<char>, ms: Seq<JsonView>) -> Seq<JsonView>
    decreases ms.len(),
{
    if ms.len() == 0 {
        Seq::empty()
    } else {
        let rest = outbound_of(protocol, ms.drop_last());
        if is_notice(ms.last()) {
            rest
        } else {
            rest.push(outbound_message(protocol, ms.last()))
        }
    }
}

fn is_sidecar_exec(k: &str) -> (r: bool)
    ensures
        r == is_sidecar(k@),
{
    str_eq(k, "source") || str_eq(k, "_display") || str_eq(k, "ts") || str_eq(k, "reasoning") || str_eq(k, "usage")
        || str_eq(k, "attachments") || str_eq(k, "run_id")
}

fn strip_sidecars(m: &Json) -> (r: Json)
    ensures
        r@ == stripped(m@),
{
    match m {
        Json::Object(members) => {
            let ghost mv = members_view(members@);
            proof {
                crate::json::lemma_members_view(members@);
            }
            let mut out: Vec<(String, Json)> = Vec::new();
            let mut i: usize = 0;
            while i < members.len()
                invariant
                    i <= members.len(),
                    mv == members_view(members@),
                    mv.len() == members@.len(),
                    forall|x: int| 0 <= x < members@.len() ==> #[trigger] mv[x] == (members@[x].0@, members@[x].1@),
                    members_view(out@) == kept_members(mv.subrange(0, i as int)),
                decreases members.len() - i,
            {
                proof {
                    assert(mv.subrange(0, i + 1).drop_last() =~= mv.subrange(0, i as int));
                    assert(mv.subrange(0, i + 1).last() == mv[i as int]);
                }
                if !is_sidecar_exec(members[i].0.as_str()) {
                    let k = members[i].0.clone();
                    let v = members[i].1.deep_clone();
                    proof {
                        crate::json::lemma_members_view_push(out@, (k, v));
                    }
                    out.push((k, v));
                }
                i = i + 1;
            }
            proof {
                assert(mv.subrange(0, i as int) =~= mv);
            }
            Json::Object(out)
        },
        _ => m.deep_clone(),
    }
}

pub(crate) fn put_member_exec(members: Vec<(String, Json)>, key: &str, value: Json) -> (r: Vec<(String, Json)>)
    ensures
        members_view(r@) == put_member(members_view(members@), key@, value@),
{
    let ghost mv = members_view(members@);
    proof {
        crate::json::lemma_members_view(members@);
        assert(mv.subrange(0, mv.len() as int) =~= mv);
    }
    let mut members = members;
    let mut i: usize = 0;
    let mut found = false;
    while i < members.len()
        invariant
            i <= members.len(),
            members@.len() == mv.len(),
            forall|x: int| 0 <= x < members@.len() ==> #[trigger] mv[x] == (members@[x].0@, members@[x].1@),
            stop_index(mv, key@) == i + stop_index(mv.subrange(i as int, mv.len() as int), key@),
            found ==> i < members.len() && stop_index(mv.subrange(i as int, mv.len() as int), key@) == 0,
        ensures
            stop_index(mv, key@) == i,
        decreases members.len() - i + (if found { 0int } else { 1int }),
    {
        let ghost rest = mv.subrange(i as int, mv.len() as int);
        assert(rest[0] == mv[i as int]);
        let rel = crate::strmap::compare_str(key, members[i].0.as_str());
        if rel != crate::strmap::Rel::Greater {
            found = true;
            break;
        }
        proof {
            assert(rest.drop_first() =~= mv.subrange(i + 1, mv.len() as int));
        }
        i = i + 1;
    }
    let ghost before = members@;
    if i < members.len() && str_eq(members[i].0.as_str(), key) {
        members.set(i, (owned(key), value));
        proof {
            crate::json::lemma_members_view(members@);
            assert(members_view(members@) =~= put_member(mv, key@, value@));
        }
    } else {
        members.insert(i, (owned(key), value));
        proof {
            crate::json::lemma_members_view(members@);
            assert(members_view(members@) =~= put_member(mv, key@, value@));
        }
    }
    members
}


fn outbound_message_exec(protocol: &str, m: &Json) -> (r: Json)
    ensures
        r@ == outbound_message(protocol@, m@),
{
    let base = strip_sidecars(m);
    let is_user = match m.str_field("role") {
        Some(role) => str_eq(role, "user"),
        None => false,
    };
    if !is_user {
        return base;
    }
    match m.get("attachments") {
        Some(Json::Array(attachments)) => {
            proof {
                crate::json::lemma_items_view(attachments@);
            }
            if attachments.len() == 0 {
                return base;
            }
            let text = match m.str_field("content") {
                Some(t) => t,
                None => "",
            };
            proof {
                reveal_strlit("");
                assert(text@ == or_empty(m@.str_field("content"@)));
            }
            let content = provider_user_content(protocol, text, attachments);
            match base {
                Json::Object(members) => Json::Object(put_member_exec(members, "content", content)),
                other => other,
            }
        },
        _ => base,
    }
}

fn notice_exec(m: &Json) -> (r: bool)
    ensures
        r == is_notice(m@),
{
    match m.str_field("role") {
        Some(role) => str_eq(role, "notice"),
        None => false,
    }
}

impl RuntimeHost {
    /// The history as the provider is sent it.
    pub fn outbound_messages(&self) -> (r: Vec<Json>)
        ensures
            items_view(r@) == outbound_of(self@.config.protocol, self@.messages),
    {
        let ghost mv = items_view(self.messages@);
        proof {
            crate::json::lemma_items_view(self.messages@);
        }
        let mut out: Vec<Json> = Vec::new();
        let mut i: usize = 0;
        while i < self.messages.len()
            invariant
                i <= self.messages.len(),
                mv == items_view(self.messages@),
                mv.len() == self.messages@.len(),
                forall|x: int| 0 <= x < self.messages@.len() ==> #[trigger] mv[x] == self.messages@[x]@,
                items_view(out@) == outbound_of(self.config.protocol@, mv.subrange(0, i as int)),
            decreases self.messages.len() - i,
        {
            proof {
                assert(mv.subrange(0, i + 1).drop_last() =~= mv.subrange(0, i as int));
                assert(mv.subrange(0, i + 1).last() == mv[i as int]);
            }
            let m = &self.messages[i];
            if !notice_exec(m) {
                let o = outbound_message_exec(self.config.protocol.as_str(), m);
                proof {
                    crate::json::lemma_items_view_push(out@, o);
                }
                out.push(o);
            }
            i = i + 1;
        }
        proof {
            assert(mv.subrange(0, i as int) =~= mv);
        }
        out
    }
}


// -- Switching the model ---------------------------------------------------------------

pub open spec fn is_system(m: JsonView) -> bool {
    m.str_field("role"@) == Some("system"@)
}

/// The history holds a message other than the system prompt.
pub open spec fn has_history(ms: Seq<JsonView>) -> bool {
    exists|i: int| 0 <= i < ms.len() && !is_system(#[trigger] ms[i])
}

pub open spec fn notice_text(model: Seq<char>) -> Seq<char> {
    "Model switched to "@ + model
}

/// The notice a model switch leaves in the history.
pub open spec fn switch_notice(model: Seq<char>, ts: NumberView) -> JsonView {
    JsonView::Object(
        seq![
            ("kind"@, JsonView::Str("model_switch"@)),
            ("model"@, JsonView::Str(model)),
            ("role"@, JsonView::Str("notice"@)),
            ("text"@, JsonView::Str(notice_text(model))),
            ("ts"@, JsonView::Number(ts)),
        ],
    )
}

/// The index of the first system message.
pub open spec fn first_system(ms: Seq<JsonView>) -> Option<int>
    decreases ms.len(),
{
    if ms.len() == 0 {
        None
    } else if is_system(ms[0]) {
        Some(0)
    } else {
        match first_system(ms.drop_first()) {
            Some(j) => Some(j + 1),
            None => None,
        }
    }
}

/// The history with `prompt` as its system prompt: the first system
/// message replaced, or one put in front.
pub open spec fn with_system(ms: Seq<JsonView>, prompt: Seq<char>) -> Seq<JsonView> {
    match first_system(ms) {
        Some(i) => ms.update(i, role_message("system"@, prompt)),
        None => seq![role_message("system"@, prompt)] + ms,
    }
}

/// The history without system messages.
pub open spec fn without_system(ms: Seq<JsonView>) -> Seq<JsonView>
    decreases ms.len(),
{
    if ms.len() == 0 {
        Seq::empty()
    } else {
        let rest = without_system(ms.drop_last());
        if is_system(ms.last()) {
            rest
        } else {
            rest.push(ms.last())
        }
    }
}

fn is_system_exec(m: &Json) -> (r: bool)
    ensures
        r == is_system(m@),
{
    match m.str_field("role") {
        Some(role) => str_eq(role, "system"),
        None => false,
    }
}

fn has_history_exec(messages: &Vec<Json>) -> (r: bool)
    ensures
        r == has_history(items_view(messages@)),
{
    let ghost mv = items_view(messages@);
    proof {
        crate::json::lemma_items_view(messages@);
    }
    let mut i: usize = 0;
    while i < messages.len()
        invariant
            i <= messages.len(),
            mv == items_view(messages@),
            mv.len() == messages@.len(),
            forall|x: int| 0 <= x < messages@.len() ==> #[trigger] mv[x] == messages@[x]@,
            forall|x: int| 0 <= x < i ==> is_system(#[trigger] mv[x]),
        decreases messages.len() - i,
    {
        if !is_system_exec(&messages[i]) {
            assert(!is_system(mv[i as int]));
            return true;
        }
        i = i + 1;
    }
    false
}

fn switch_notice_exec(model: &str, ts: &JsonNumber) -> (r: Json)
    ensures
        r@ == switch_notice(model@, ts@),
{
    let members = vec![
        (owned("kind"), Json::String(owned("model_switch"))),
        (owned("model"), Json::String(owned(model))),
        (owned("role"), Json::String(owned("notice"))),
        (owned("text"), Json::String(concat2("Model switched to ", model))),
        (owned("ts"), Json::Number(ts.duplicate())),
    ];
    proof {
        crate::json::lemma_members_view(members@);
        assert(members_view(members@) =~= switch_notice(model@, ts@)->Object_0);
    }
    Json::Object(members)
}

fn clone_opt(o: &Option<Json>) -> (r: Option<Json>)
    ensures
        json_opt(r) == json_opt(*o),
{
    match o {
        Some(j) => Some(j.deep_clone()),
        None => None,
    }
}

fn same_text_opt(a: &Option<String>, b: &Option<String>) -> (r: bool)
    ensures
        r == (text_opt(*a) == text_opt(*b)),
{
    match (a, b) {
        (Some(x), Some(y)) => str_eq(x.as_str(), y.as_str()),
        (None, None) => true,
        _ => false,
    }
}

/// The host after a switch to `model`, and the notice text it returns.
pub open spec fn model_switch(h: HostView, model: Seq<char>, ts: NumberView) -> (HostView, Option<Seq<char>>) {
    if model.len() == 0 || model == model_of(h.config) {
        (h, None)
    } else if has_history(h.messages) {
        (
            HostView {
                config: ConfigView { model: model, model_id: model, ..h.config },
                messages: h.messages.push(switch_notice(model, ts)),
                ..h
            },
            Some(notice_text(model)),
        )
    } else {
        (HostView { config: ConfigView { model: model, model_id: model, ..h.config }, ..h }, None)
    }
}

/// Once the session runs on `model`, switching to it again changes nothing
/// and leaves no notice.
pub proof fn law_switch_model_settles(h: HostView, model: Seq<char>, ts1: NumberView, ts2: NumberView)
    ensures
        model_switch(model_switch(h, model, ts1).0, model, ts2) == (model_switch(h, model, ts1).0, None::<Seq<char>>),
{
}

impl RuntimeHost {
    /// Switch to `model` (a routed id). An empty id, or the model the
    /// session already runs on, changes nothing. With history, a notice is
    /// left in it and its text is returned.
    pub fn switch_model(&mut self, model: &str, ts: &JsonNumber) -> (r: Option<String>)
        ensures
            (final(self)@, text_opt(r)) == model_switch(old(self)@, model@, ts@),
    {
        if model.is_empty() || str_eq(model, self.model()) {
            return None;
        }
        proof {
            assert(model@.len() > 0);
        }
        let had_history = has_history_exec(&self.messages);
        self.config.model = owned(model);
        self.config.model_id = owned(model);
        if had_history {
            let notice = switch_notice_exec(model, ts);
            proof {
                crate::json::lemma_items_view_push(self.messages@, notice);
            }
            self.messages.push(notice);
            Some(concat2("Model switched to ", model))
        } else {
            None
        }
    }

    fn put_system_prompt(&mut self, prompt: &str)
        ensures
            final(self)@ == (HostView { messages: with_system(old(self)@.messages, prompt@), ..old(self)@ }),
    {
        let ghost mv = items_view(self.messages@);
        proof {
            crate::json::lemma_items_view(self.messages@);
            assert(mv.subrange(0, mv.len() as int) =~= mv);
        }
        let mut i: usize = 0;
        while i < self.messages.len()
            invariant
                i <= self.messages.len(),
                mv == items_view(self.messages@),
                mv.len() == self.messages@.len(),
                forall|x: int| 0 <= x < self.messages@.len() ==> #[trigger] mv[x] == self.messages@[x]@,
                self@ == old(self)@,
                first_system(mv) == match first_system(mv.subrange(i as int, mv.len() as int)) {
                    Some(j) => Some(j + i),
                    None => None,
                },
            decreases self.messages.len() - i,
        {
            let ghost rest = mv.subrange(i as int, mv.len() as int);
            assert(rest[0] == mv[i as int]);
            if is_system_exec(&self.messages[i]) {
                let m = role_message_exec("system", prompt);
                self.messages.set(i, m);
                proof {
                    crate::json::lemma_items_view(self.messages@);
                    assert(items_view(self.messages@) =~= with_system(mv, prompt@));
                }
                return;
            }
            proof {
                assert(rest.drop_first() =~= mv.subrange(i + 1, mv.len() as int));
            }
            i = i + 1;
        }
        let m = role_message_exec("system", prompt);
        self.messages.insert(0, m);
        proof {
            crate::json::lemma_items_view(self.messages@);
            assert(items_view(self.messages@) =~= with_system(mv, prompt@));
        }
    }

    fn drop_system_messages(&mut self)
        ensures
            final(self)@ == (HostView { messages: without_system(old(self)@.messages), ..old(self)@ }),
    {
        let ghost mv = items_view(self.messages@);
        proof {
            crate::json::lemma_items_view(self.messages@);
        }
        let mut kept: Vec<Json> = Vec::new();
        let mut i: usize = 0;
        while i < self.messages.len()
            invariant
                i <= self.messages.len(),
                mv == items_view(self.messages@),
                mv.len() == self.messages@.len(),
                forall|x: int| 0 <= x < self.messages@.len() ==> #[trigger] mv[x] == self.messages@[x]@,
                self@ == old(self)@,
                items_view(kept@) == without_system(mv.subrange(0, i as int)),
            decreases self.messages.len() - i,
        {
            proof {
                assert(mv.subrange(0, i + 1).drop_last() =~= mv.subrange(0, i as int));
                assert(mv.subrange(0, i + 1).last() == mv[i as int]);
            }
            if !is_system_exec(&self.messages[i]) {
                let m = self.messages[i].deep_clone();
                proof {
                    crate::json::lemma_items_view_push(kept@, m);
                }
                kept.push(m);
            }
            i = i + 1;
        }
        proof {
            assert(mv.subrange(0, i as int) =~= mv);
        }
        self.messages = kept;
    }
}


/// The history after the system prompt changes from `before` to `after`.
pub open spec fn prompt_history(ms: Seq<JsonView>, before: Option<Seq<char>>, after: Option<Seq<char>>) -> Seq<JsonView> {
    if before == after {
        ms
    } else {
        match after {
            Some(p) => with_system(ms, p),
            None => without_system(ms),
        }
    }
}

impl RuntimeHost {
    /// Take a resolved configuration for the next turns. A configuration
    /// that names no model changes nothing. The execution mode stays; a
    /// changed system prompt replaces the history's (or leaves none). When
    /// the model changes on a session with history, a notice is left in it
    /// and its text returned, and the host announces `model_changed`.
    pub fn switch_runtime_config(&mut self, config: RuntimeConfig, ts: &JsonNumber) -> (r: Option<String>)
        ensures
            ({
                let id = model_of(config@);
                let o = old(self)@;
                if id.len() == 0 {
                    r is None && final(self)@ == o
                } else {
                    let announced = id != model_of(o.config) && has_history(o.messages);
                    let ms = prompt_history(o.messages, o.config.system_prompt, config@.system_prompt);
                    &&& final(self)@ == (HostView {
                        config: ConfigView { model_id: id, mode: o.config.mode, ..config@ },
                        messages: if announced {
                            ms.push(switch_notice(id, ts@))
                        } else {
                            ms
                        },
                        ..o
                    })
                    &&& text_opt(r) == if announced {
                        Some(notice_text(id))
                    } else {
                        None
                    }
                }
            }),
    {
        let model_id = if config.model_id.as_str().is_empty() {
            config.model.clone()
        } else {
            config.model_id.clone()
        };
        if model_id.as_str().is_empty() {
            return None;
        }
        let changed = !str_eq(model_id.as_str(), self.model());
        let had_history = has_history_exec(&self.messages);
        let prompt_changed = !same_text_opt(&self.config.system_prompt, &config.system_prompt);
        let RuntimeConfig {
            model_id: _,
            model,
            protocol,
            api_key,
            base_url,
            max_iterations,
            max_retries,
            ttft_timeout,
            tool_timeout,
            model_settings,
            system_prompt,
            workspace,
            unattended,
            mode: _,
        } = config;
        self.config.model_id = model_id.clone();
        self.config.model = model;
        self.config.protocol = protocol;
        self.config.api_key = api_key;
        self.config.base_url = base_url;
        self.config.model_settings = model_settings;
        self.config.max_iterations = max_iterations;
        self.config.max_retries = max_retries;
        self.config.ttft_timeout = ttft_timeout;
        self.config.tool_timeout = tool_timeout;
        self.config.workspace = workspace;
        self.config.unattended = unattended;
        if prompt_changed {
            match &system_prompt {
                Some(p) => self.put_system_prompt(p.as_str()),
                None => self.drop_system_messages(),
            }
            self.config.system_prompt = system_prompt;
        }
        if changed && had_history {
            let notice = switch_notice_exec(model_id.as_str(), ts);
            proof {
                crate::json::lemma_items_view_push(self.messages@, notice);
            }
            self.messages.push(notice);
            Some(concat2("Model switched to ", model_id.as_str()))
        } else {
            None
        }
    }
}


// -- Messages a turn adds --------------------------------------------------------------

pub open spec fn opt_member(k: Seq<char>, v: Option<JsonView>) -> Seq<(Seq<char>, JsonView)> {
    match v {
        Some(x) => seq![(k, x)],
        None => Seq::empty(),
    }
}

pub open spec fn opt_str(v: Option<Seq<char>>) -> Option<JsonView> {
    match v {
        Some(t) => Some(JsonView::Str(t)),
        None => None,
    }
}

/// A tool call as the assistant message records it; the arguments as
/// compact JSON text.
pub open spec fn call_json(c: ToolCall) -> JsonView {
    JsonView::Object(
        seq![
            ("function"@, JsonView::Object(
                seq![("arguments"@, JsonView::Str(crate::json::json_text(c.arguments@))), ("name"@, JsonView::Str(c.name@))],
            )),
            ("id"@, JsonView::Str(c.id@)),
            ("type"@, JsonView::Str("function"@)),
        ],
    )
}

pub open spec fn calls_json(calls: Seq<ToolCall>) -> Seq<JsonView> {
    calls.map_values(|c: ToolCall| call_json(c))
}

/// The assistant message a turn records.
pub open spec fn assistant_view(
    model: Seq<char>,
    text: Option<Seq<char>>,
    reasoning: Option<Seq<char>>,
    calls: Seq<JsonView>,
    ts: NumberView,
) -> JsonView {
    JsonView::Object(
        opt_member("content"@, opt_str(text)) + seq![("model"@, JsonView::Str(model))] + opt_member(
            "reasoning"@,
            opt_str(reasoning),
        ) + seq![("role"@, JsonView::Str("assistant"@))] + (if calls.len() > 0 {
            seq![("tool_calls"@, JsonView::Array(calls))]
        } else {
            Seq::empty()
        }) + seq![("ts"@, JsonView::Number(ts))],
    )
}

/// A steering instruction as the history records it.
pub open spec fn steer_message(text: Seq<char>, source: Option<JsonView>, ts: NumberView) -> JsonView {
    JsonView::Object(
        seq![("content"@, JsonView::Str(text)), ("role"@, JsonView::Str("user"@))] + opt_member("source"@, source)
            + seq![("ts"@, JsonView::Number(ts))],
    )
}

/// The user message that starts a run.
/// A turn-loop notice: `{"kind": kind, "role": "notice", "text"?: text,
/// "ts": ts}`.
pub open spec fn notice_message(kind: Seq<char>, text: Option<Seq<char>>, ts: NumberView) -> JsonView {
    JsonView::Object(
        seq![("kind"@, JsonView::Str(kind)), ("role"@, JsonView::Str("notice"@))] + opt_member(
            "text"@,
            match text {
                Some(t) => Some(JsonView::Str(t)),
                None => None,
            },
        ) + seq![("ts"@, JsonView::Number(ts))],
    )
}

/// The history entry of a tool call's result: `{"content": output, "role":
/// "tool", "tool_call_id": id}`.
pub open spec fn tool_message(call_id: Seq<char>, output: JsonView) -> JsonView {
    JsonView::Object(
        seq![
            ("content"@, output),
            ("role"@, JsonView::Str("tool"@)),
            ("tool_call_id"@, JsonView::Str(call_id)),
        ],
    )
}

pub open spec fn user_message(
    input: Seq<char>,
    attachments: Seq<JsonView>,
    source: Option<JsonView>,
    ts: NumberView,
) -> JsonView {
    JsonView::Object(
        (if attachments.len() > 0 {
            seq![("attachments"@, JsonView::Array(attachments))]
        } else {
            Seq::empty()
        }) + seq![("content"@, JsonView::Str(input)), ("role"@, JsonView::Str("user"@))] + opt_member(
            "source"@,
            source,
        ) + seq![("ts"@, JsonView::Number(ts))],
    )
}

fn push_member(out: &mut Vec<(String, Json)>, k: &str, v: Json)
    ensures
        members_view(final(out)@) == members_view(old(out)@).push((k@, v@)),
{
    let key = owned(k);
    proof {
        crate::json::lemma_members_view_push(out@, (key, v));
    }
    out.push((key, v));
}

fn call_json_exec(c: &ToolCall) -> (r: Json)
    ensures
        r@ == call_json(*c),
{
    let mut function: Vec<(String, Json)> = Vec::new();
    proof {
        crate::json::lemma_members_view(function@);
    }
    push_member(&mut function, "arguments", Json::String(c.arguments.to_text()));
    push_member(&mut function, "name", Json::String(c.name.clone()));
    proof {
        assert(members_view(function@) =~= call_json(*c)->Object_0[0].1->Object_0);
    }
    let mut out: Vec<(String, Json)> = Vec::new();
    proof {
        crate::json::lemma_members_view(out@);
    }
    push_member(&mut out, "function", Json::Object(function));
    push_member(&mut out, "id", Json::String(c.id.clone()));
    push_member(&mut out, "type", Json::String(owned("function")));
    proof {
        assert(members_view(out@) =~= call_json(*c)->Object_0);
    }
    Json::Object(out)
}

fn opt_str_exec(v: Option<&str>) -> (r: Option<Json>)
    ensures
        json_opt(r) == opt_str(match v {
            Some(t) => Some(t@),
            None => None,
        }),
{
    match v {
        Some(t) => Some(Json::String(owned(t))),
        None => None,
    }
}

fn push_opt_member(out: &mut Vec<(String, Json)>, k: &str, v: Option<Json>)
    ensures
        members_view(final(out)@) == members_view(old(out)@) + opt_member(k@, json_opt(v)),
{
    match v {
        Some(x) => {
            push_member(out, k, x);
        },
        None => {
            assert(members_view(out@) + opt_member(k@, json_opt(v)) =~= members_view(out@));
        },
    }
}

/// `{"role": "notice", "kind": "error", ..}`: a failed turn's notice.
pub open spec fn is_error_notice(m: JsonView) -> bool {
    is_notice(m) && m.str_field("kind"@) == Some("error"@)
}

/// The index of the last error notice.
pub open spec fn last_error_notice(ms: Seq<JsonView>) -> Option<int>
    decreases ms.len(),
{
    if ms.len() == 0 {
        None
    } else if is_error_notice(ms.last()) {
        Some(ms.len() - 1)
    } else {
        last_error_notice(ms.drop_last())
    }
}

impl RuntimeHost {
    /// The request of the next turn.
    pub fn build_request(&self) -> (r: crate::provider::bodies::ProviderRequest)
        ensures
            r.protocol@ == self@.config.protocol,
            r.model@ == self@.config.model,
            r.messages@ == JsonView::Array(outbound_of(self@.config.protocol, self@.messages)),
            json_opt(r.tools) == self@.tools,
            json_opt(r.settings) == Some(self@.config.model_settings),
            r.api_key@ == self@.config.api_key,
            r.base_url@ == self@.config.base_url,
            r.timeout_secs == self@.config.ttft_timeout,
    {
        crate::provider::bodies::ProviderRequest {
            protocol: self.config.protocol.clone(),
            model: self.config.model.clone(),
            messages: Json::Array(self.outbound_messages()),
            tools: clone_opt(&self.tools),
            settings: Some(self.config.model_settings.deep_clone()),
            api_key: self.config.api_key.clone(),
            base_url: self.config.base_url.clone(),
            timeout_secs: self.config.ttft_timeout,
        }
    }

    /// The assistant message of a turn: its text, reasoning and tool calls
    /// as far as the turn had them.
    pub fn assistant_message(
        &self,
        text: Option<&str>,
        reasoning: Option<&str>,
        tool_calls: &Vec<ToolCall>,
        ts: &JsonNumber,
    ) -> (r: Json)
        ensures
            r@ == assistant_view(
                self@.config.model,
                match text {
                    Some(t) => Some(t@),
                    None => None,
                },
                match reasoning {
                    Some(t) => Some(t@),
                    None => None,
                },
                calls_json(tool_calls@),
                ts@,
            ),
    {
        let mut calls: Vec<Json> = Vec::new();
        let mut i: usize = 0;
        while i < tool_calls.len()
            invariant
                i <= tool_calls.len(),
                items_view(calls@) == calls_json(tool_calls@.subrange(0, i as int)),
            decreases tool_calls.len() - i,
        {
            let c = call_json_exec(&tool_calls[i]);
            proof {
                crate::json::lemma_items_view_push(calls@, c);
                assert(calls_json(tool_calls@.subrange(0, i + 1)) =~= calls_json(tool_calls@.subrange(0, i as int)).push(
                    call_json(tool_calls@[i as int]),
                ));
            }
            calls.push(c);
            i = i + 1;
        }
        proof {
            assert(tool_calls@.subrange(0, i as int) =~= tool_calls@);
            crate::json::lemma_items_view(calls@);
        }
        let ghost cv = items_view(calls@);
        let mut out: Vec<(String, Json)> = Vec::new();
        proof {
            crate::json::lemma_members_view(out@);
        }
        push_opt_member(&mut out, "content", opt_str_exec(text));
        push_member(&mut out, "model", Json::String(self.config.model.clone()));
        push_opt_member(&mut out, "reasoning", opt_str_exec(reasoning));
        push_member(&mut out, "role", Json::String(owned("assistant")));
        if calls.len() > 0 {
            push_member(&mut out, "tool_calls", Json::Array(calls));
        } else {
            assert(members_view(out@) + Seq::<(Seq<char>, JsonView)>::empty() =~= members_view(out@));
        }
        push_member(&mut out, "ts", Json::Number(ts.duplicate()));
        let ghost expected = assistant_view(
            self@.config.model,
            match text {
                Some(t) => Some(t@),
                None => None,
            },
            match reasoning {
                Some(t) => Some(t@),
                None => None,
            },
            cv,
            ts@,
        );
        proof {
            assert(members_view(out@) =~= expected->Object_0);
        }
        Json::Object(out)
    }

    /// Record the queued steering instructions as user messages, in the
    /// order they came; `false` when none was queued.
    pub fn drain_steering(&mut self, ts: &JsonNumber) -> (r: bool)
        ensures
            r == (old(self)@.steering.len() > 0),
            r ==> final(self)@ == (HostView {
                messages: old(self)@.messages + old(self)@.steering.map_values(
                    |e: (Seq<char>, Option<JsonView>)| steer_message(e.0, e.1, ts@),
                ),
                steering: Seq::empty(),
                ..old(self)@
            }),
            !r ==> final(self)@ == old(self)@,
    {
        if self.steering.len() == 0 {
            return false;
        }
        let ghost start = items_view(self.messages@);
        let ghost queue = steering_view(self.steering@);
        let mut i: usize = 0;
        while i < self.steering.len()
            invariant
                i <= self.steering.len(),
                queue == steering_view(self.steering@),
                queue.len() == self.steering@.len(),
                self.config == old(self).config,
                self.cancel == old(self).cancel,
                self.provider_cancel == old(self).provider_cancel,
                self.session_id == old(self).session_id,
                self.tools == old(self).tools,
                self.run_id == old(self).run_id,
                self.steering == old(self).steering,
                start == items_view(old(self).messages@),
                items_view(self.messages@) == start + queue.subrange(0, i as int).map_values(
                    |e: (Seq<char>, Option<JsonView>)| steer_message(e.0, e.1, ts@),
                ),
            decreases self.steering.len() - i,
        {
            let mut members: Vec<(String, Json)> = Vec::new();
            proof {
                crate::json::lemma_members_view(members@);
            }
            push_member(&mut members, "content", Json::String(self.steering[i].0.clone()));
            push_member(&mut members, "role", Json::String(owned("user")));
            push_opt_member(&mut members, "source", clone_opt(&self.steering[i].1));
            push_member(&mut members, "ts", Json::Number(ts.duplicate()));
            let ghost e = queue[i as int];
            proof {
                assert(e == (self.steering@[i as int].0@, json_opt(self.steering@[i as int].1)));
                assert(members_view(members@) =~= steer_message(e.0, e.1, ts@)->Object_0);
            }
            let m = Json::Object(members);
            proof {
                crate::json::lemma_items_view_push(self.messages@, m);
                assert(queue.subrange(0, i + 1).map_values(|e: (Seq<char>, Option<JsonView>)| steer_message(e.0, e.1, ts@))
                    =~= queue.subrange(0, i as int).map_values(
                    |e: (Seq<char>, Option<JsonView>)| steer_message(e.0, e.1, ts@),
                ).push(steer_message(e.0, e.1, ts@)));
            }
            self.messages.push(m);
            i = i + 1;
        }
        self.steering = Vec::new();
        proof {
            assert(queue.subrange(0, i as int) =~= queue);
            assert(steering_view(self.steering@) =~= Seq::<(Seq<char>, Option<JsonView>)>::empty());
        }
        true
    }

    /// Record a message the run produced (an assistant reply, whole or
    /// partial) at the end of the history.
    pub fn record(&mut self, message: Json)
        ensures
            final(self)@ == (HostView { messages: old(self)@.messages.push(message@), ..old(self)@ }),
    {
        proof {
            crate::json::lemma_items_view_push(self.messages@, message);
        }
        self.messages.push(message);
    }

    /// Record a turn-loop notice (`interrupted`, `retrying`, `error`).
    pub fn record_notice(&mut self, kind: &str, text: Option<&str>, ts: &JsonNumber)
        ensures
            final(self)@ == (HostView {
                messages: old(self)@.messages.push(
                    notice_message(
                        kind@,
                        match text {
                            Some(t) => Some(t@),
                            None => None,
                        },
                        ts@,
                    ),
                ),
                ..old(self)@
            }),
    {
        let mut members: Vec<(String, Json)> = Vec::new();
        proof {
            crate::json::lemma_members_view(members@);
        }
        push_member(&mut members, "kind", Json::String(owned(kind)));
        push_member(&mut members, "role", Json::String(owned("notice")));
        let text_json = match text {
            Some(t) => Some(Json::String(owned(t))),
            None => None,
        };
        push_opt_member(&mut members, "text", text_json);
        push_member(&mut members, "ts", Json::Number(ts.duplicate()));
        let ghost tv = match text {
            Some(t) => Some(t@),
            None => None,
        };
        proof {
            assert(members_view(members@) =~= notice_message(kind@, tv, ts@)->Object_0);
        }
        self.record(Json::Object(members));
    }

    /// Record the result of tool call `call_id`.
    pub fn record_tool_result(&mut self, call_id: &str, output: &Json)
        ensures
            final(self)@ == (HostView {
                messages: old(self)@.messages.push(tool_message(call_id@, output@)),
                ..old(self)@
            }),
    {
        let mut members: Vec<(String, Json)> = Vec::new();
        proof {
            crate::json::lemma_members_view(members@);
        }
        push_member(&mut members, "content", output.deep_clone());
        push_member(&mut members, "role", Json::String(owned("tool")));
        push_member(&mut members, "tool_call_id", Json::String(owned(call_id)));
        proof {
            assert(members_view(members@) =~= tool_message(call_id@, output@)->Object_0);
        }
        self.record(Json::Object(members));
    }

    /// Record the user message that starts a run.
    pub fn push_user_message(&mut self, input: &str, attachments: Vec<Json>, source: Option<Json>, ts: &JsonNumber)
        ensures
            final(self)@ == (HostView {
                messages: old(self)@.messages.push(
                    user_message(input@, items_view(attachments@), json_opt(source), ts@),
                ),
                ..old(self)@
            }),
    {
        let ghost av = items_view(attachments@);
        let ghost sv = json_opt(source);
        proof {
            crate::json::lemma_items_view(attachments@);
        }
        let mut members: Vec<(String, Json)> = Vec::new();
        proof {
            crate::json::lemma_members_view(members@);
        }
        if attachments.len() > 0 {
            push_member(&mut members, "attachments", Json::Array(attachments));
        } else {
            assert(members_view(members@) + Seq::<(Seq<char>, JsonView)>::empty() =~= members_view(members@));
        }
        push_member(&mut members, "content", Json::String(owned(input)));
        push_member(&mut members, "role", Json::String(owned("user")));
        push_opt_member(&mut members, "source", source);
        push_member(&mut members, "ts", Json::Number(ts.duplicate()));
        proof {
            assert(members_view(members@) =~= user_message(input@, av, sv, ts@)->Object_0);
        }
        let m = Json::Object(members);
        proof {
            crate::json::lemma_items_view_push(self.messages@, m);
        }
        self.messages.push(m);
    }

    /// Before a retry: drop the last error notice. `false` when the history
    /// holds none, and then there is nothing to retry.
    pub fn take_error_notice(&mut self) -> (r: bool)
        ensures
            match last_error_notice(old(self)@.messages) {
                Some(i) => r && final(self)@ == (HostView { messages: old(self)@.messages.remove(i), ..old(self)@ }),
                None => !r && final(self)@ == old(self)@,
            },
    {
        let ghost mv = items_view(self.messages@);
        proof {
            crate::json::lemma_items_view(self.messages@);
            assert(mv.subrange(0, mv.len() as int) =~= mv);
        }
        let mut i: usize = self.messages.len();
        while i > 0
            invariant
                i <= self.messages.len(),
                mv == items_view(self.messages@),
                mv.len() == self.messages@.len(),
                forall|x: int| 0 <= x < self.messages@.len() ==> #[trigger] mv[x] == self.messages@[x]@,
                self@ == old(self)@,
                last_error_notice(mv) == last_error_notice(mv.subrange(0, i as int)),
            decreases i,
        {
            i = i - 1;
            let ghost head = mv.subrange(0, i + 1);
            assert(head.last() == mv[i as int]);
            assert(head.drop_last() =~= mv.subrange(0, i as int));
            let m = &self.messages[i];
            let error = notice_exec(m) && match m.str_field("kind") {
                Some(k) => str_eq(k, "error"),
                None => false,
            };
            if error {
                self.messages.remove(i);
                proof {
                    crate::json::lemma_items_view(self.messages@);
                    assert(items_view(self.messages@) =~= mv.remove(i as int));
                }
                return true;
            }
        }
        false
    }
}


proof fn lemma_kept_members_clean(ms: Seq<(Seq<char>, JsonView)>)
    ensures
        forall|j: int| 0 <= j < kept_members(ms).len() ==> !is_sidecar(#[trigger] kept_members(ms)[j].0),
    decreases ms.len(),
{
    if ms.len() > 0 {
        lemma_kept_members_clean(ms.drop_last());
        let rest = kept_members(ms.drop_last());
        assert forall|j: int| 0 <= j < kept_members(ms).len() implies !is_sidecar(#[trigger] kept_members(ms)[j].0) by {
            if j < rest.len() {
                assert(kept_members(ms)[j] == rest[j]);
            }
        }
    }
}

proof fn lemma_outbound_message_clean(protocol: Seq<char>, m: JsonView)
    ensures
        forall|j: int|
            0 <= j < members_of(outbound_message(protocol, m)).len() ==> !is_sidecar(
                #[trigger] members_of(outbound_message(protocol, m))[j].0,
            ),
{
    reveal_strlit("content");
    reveal_strlit("source");
    reveal_strlit("_display");
    reveal_strlit("ts");
    reveal_strlit("reasoning");
    reveal_strlit("usage");
    reveal_strlit("attachments");
    reveal_strlit("run_id");
    assert("content"@.len() == 7);
    assert("source"@.len() == 6);
    assert("_display"@.len() == 8);
    assert("ts"@.len() == 2);
    assert("reasoning"@.len() == 9);
    assert("usage"@.len() == 5);
    assert("attachments"@.len() == 11);
    assert("run_id"@.len() == 6);
    assert(!is_sidecar("content"@));
    match m {
        JsonView::Object(ms) => {
            lemma_kept_members_clean(ms);
            let base = kept_members(ms);
            let out = members_of(outbound_message(protocol, m));
            if out != base {
                let i = stop_index(base, "content"@) as int;
                lemma_stop_index_bound(base, "content"@);
                assert forall|j: int| 0 <= j < out.len() implies !is_sidecar(#[trigger] out[j].0) by {
                    if i < base.len() && base[i].0 == "content"@ {
                        if j != i {
                            assert(out[j] == base[j]);
                        }
                    } else if j < i {
                        assert(out[j] == base[j]);
                    } else if j > i {
                        assert(out[j] == base[j - 1]);
                    }
                }
            }
        },
        _ => {},
    }
}

proof fn lemma_stop_index_bound(ms: Seq<(Seq<char>, JsonView)>, k: Seq<char>)
    ensures
        stop_index(ms, k) <= ms.len(),
    decreases ms.len(),
{
    if ms.len() > 0 {
        lemma_stop_index_bound(ms.drop_first(), k);
    }
}

/// What the provider is sent never carries a sidecar member: whatever the
/// history holds, no message of the outbound history has a member named
/// `source`, `_display`, `ts`, `reasoning`, `usage`, `attachments` or
/// `run_id`.
pub proof fn law_outbound_strips_sidecars(protocol: Seq<char>, ms: Seq<JsonView>)
    ensures
        forall|i: int, j: int|
            0 <= i < outbound_of(protocol, ms).len() && 0 <= j < members_of(outbound_of(protocol, ms)[i]).len()
                ==> !is_sidecar(#[trigger] members_of(outbound_of(protocol, ms)[i])[j].0),
    decreases ms.len(),
{
    if ms.len() > 0 {
        law_outbound_strips_sidecars(protocol, ms.drop_last());
        lemma_outbound_message_clean(protocol, ms.last());
        let rest = outbound_of(protocol, ms.drop_last());
        let out = outbound_of(protocol, ms);
        assert forall|i: int, j: int|
            0 <= i < out.len() && 0 <= j < members_of(out[i]).len() implies !is_sidecar(
                #[trigger] members_of(out[i])[j].0,
            ) by {
            if i < rest.len() {
                assert(out[i] == rest[i]);
            } else {
                assert(out[i] == outbound_message(protocol, ms.last()));
            }
        }
    }
}

} // verus!
