//! Streaming replies (server-sent events), one reader per protocol.
//!
//! The host reads the response line by line. Each line goes to the reader's
//! `line`, which says whether to skip it, to stop, or which JSON payload it
//! carries; the host decodes the payload (skipping lines that do not
//! decode) and hands the value to `absorb`, which returns the text and
//! reasoning deltas to forward, each as one `delta_frame`. When the lines
//! run out, or a reader says to stop, `finish` gives the reply draft.

use vstd::prelude::*;

use crate::json::{items_view, members_view, Json, JsonNumber, JsonView, NumberView};
use crate::provider::bodies::or_null;
use crate::provider::replies::{
    chat_reasoning, chat_usage, chat_usage_of, joined_or_none, opt_text, or_empty, usage_view, ArgumentsDraft,
    Parts, ReplyDraft, ToolCallDraft,
};
use crate::provider::TokenUsage;
use crate::text::{owned, seq_starts_with, seq_trim};

verus! {

/// What the host does with one line of the event stream.
#[derive(Debug)]
pub enum LineStep {
    Skip,
    Stop,
    Payload(String),
}

pub enum LineView {
    Skip,
    Stop,
    Payload(Seq<char>),
}

impl View for LineStep {
    type V = LineView;

    open spec fn view(&self) -> LineView {
        match self {
            LineStep::Skip => LineView::Skip,
            LineStep::Stop => LineView::Stop,
            LineStep::Payload(p) => LineView::Payload(p@),
        }
    }
}

/// A piece of reply forwarded while the stream runs.
#[derive(Debug)]
pub enum StreamDelta {
    Text(String),
    Reasoning(String),
}

pub enum DeltaView {
    Text(Seq<char>),
    Reasoning(Seq<char>),
}

impl View for StreamDelta {
    type V = DeltaView;

    open spec fn view(&self) -> DeltaView {
        match self {
            StreamDelta::Text(t) => DeltaView::Text(t@),
            StreamDelta::Reasoning(t) => DeltaView::Reasoning(t@),
        }
    }
}

pub open spec fn delta_views(d: Seq<StreamDelta>) -> Seq<DeltaView> {
    d.map_values(|x: StreamDelta| x@)
}

/// The frame that forwards one delta to the listener of `request_id`.
pub open spec fn frame_view(request_id: Seq<char>, d: DeltaView) -> JsonView {
    let data = match d {
        DeltaView::Text(t) => JsonView::Object(seq![("text_delta"@, JsonView::Str(t))]),
        DeltaView::Reasoning(t) => JsonView::Object(seq![("reasoning_delta"@, JsonView::Str(t))]),
    };
    JsonView::Object(
        seq![
            ("data"@, data),
            ("ok"@, JsonView::Bool(true)),
            ("request_id"@, JsonView::Str(request_id)),
            ("stream"@, JsonView::Str("delta"@)),
        ],
    )
}

/// `{"ok": true, "stream": "delta", "request_id": …, "data": {…}}`.
pub fn delta_frame(request_id: &str, d: &StreamDelta) -> (r: Json)
    ensures
        r@ == frame_view(request_id@, d@),
{
    let data = match d {
        StreamDelta::Text(t) => vec![(owned("text_delta"), Json::String(t.clone()))],
        StreamDelta::Reasoning(t) => vec![(owned("reasoning_delta"), Json::String(t.clone()))],
    };
    proof {
        crate::json::lemma_members_view(data@);
    }
    let members = vec![
        (owned("data"), Json::Object(data)),
        (owned("ok"), Json::Bool(true)),
        (owned("request_id"), Json::String(owned(request_id))),
        (owned("stream"), Json::String(owned("delta"))),
    ];
    proof {
        crate::json::lemma_members_view(members@);
        match d {
            StreamDelta::Text(t) => {
                assert(members_view(data@) =~= seq![("text_delta"@, JsonView::Str(t@))]);
            },
            StreamDelta::Reasoning(t) => {
                assert(members_view(data@) =~= seq![("reasoning_delta"@, JsonView::Str(t@))]);
            },
        }
        assert(members_view(members@) =~= frame_view(request_id@, d@)->Object_0);
    }
    Json::Object(members)
}

/// The reply of a stream the user cancelled: `{"cancelled": true}`.
pub fn cancelled_reply() -> (r: Json)
    ensures
        r@ == JsonView::Object(seq![("cancelled"@, JsonView::Bool(true))]),
{
    let members = vec![(owned("cancelled"), Json::Bool(true))];
    proof {
        crate::json::lemma_members_view(members@);
        assert(members_view(members@) =~= seq![("cancelled"@, JsonView::Bool(true))]);
    }
    Json::Object(members)
}

/// A `data: ` line's payload, after trimming; `None` for other lines.
pub open spec fn data_payload(trimmed: Seq<char>) -> Option<Seq<char>> {
    if seq_starts_with(trimmed, "data: "@) {
        Some(trimmed.subrange("data: "@.len() as int, trimmed.len() as int))
    } else {
        None
    }
}

/// A tool call being assembled from streamed pieces.
#[derive(Debug)]
pub struct CallAccum {
    pub id: String,
    pub name: String,
    pub args: String,
}

pub struct CallView {
    pub id: Seq<char>,
    pub name: Seq<char>,
    pub args: Seq<char>,
}

impl View for CallAccum {
    type V = CallView;

    open spec fn view(&self) -> CallView {
        CallView { id: self.id@, name: self.name@, args: self.args@ }
    }
}

pub open spec fn call_views(calls: Seq<CallAccum>) -> Seq<CallView> {
    calls.map_values(|c: CallAccum| c@)
}

pub open spec fn blank_call() -> CallView {
    CallView { id: Seq::empty(), name: Seq::empty(), args: Seq::empty() }
}

/// The calls, with blank ones added until position `idx` exists.
pub open spec fn padded(calls: Seq<CallView>, idx: nat) -> Seq<CallView> {
    if idx < calls.len() {
        calls
    } else {
        calls + Seq::new((idx + 1 - calls.len()) as nat, |i: int| blank_call())
    }
}

/// A chunk's `index`, when it is an unsigned integer; else 0.
pub open spec fn index_of(v: JsonView) -> nat {
    match v.get("index"@) {
        Some(JsonView::Number(NumberView::PosInt(u))) => u as nat,
        _ => 0,
    }
}

fn index_exec(v: &Json) -> (r: u64)
    ensures
        r == index_of(v@),
{
    match v.get("index") {
        Some(Json::Number(JsonNumber::PosInt(u))) => *u,
        _ => 0,
    }
}

fn blank() -> (c: CallAccum)
    ensures
        c@ == blank_call(),
{
    CallAccum { id: String::new(), name: String::new(), args: String::new() }
}

/// Add blank calls until position `idx` exists.
fn pad_calls(calls: &mut Vec<CallAccum>, idx: u64)
    ensures
        call_views(final(calls)@) == padded(call_views(old(calls)@), idx as nat),
        idx < final(calls)@.len(),
{
    let ghost start = call_views(calls@);
    while (calls.len() as u64) <= idx
        invariant
            start.len() <= calls@.len(),
            calls@.len() <= if idx < start.len() { start.len() as int } else { idx + 1 },
            call_views(calls@) == start + Seq::new((calls@.len() - start.len()) as nat, |i: int| blank_call()),
        decreases idx + 1 - calls@.len(),
    {
        let ghost before = calls@;
        calls.push(blank());
        proof {
            assert(call_views(calls@) =~= call_views(before).push(blank_call()));
            assert(call_views(calls@) =~= start + Seq::new((calls@.len() - start.len()) as nat, |i: int| blank_call()));
        }
    }
    proof {
        if idx < start.len() {
            assert(call_views(calls@) =~= start);
        } else {
            assert(call_views(calls@) =~= padded(start, idx as nat));
        }
    }
}

fn push_part(parts: &mut Parts, deltas: &mut Vec<StreamDelta>, t: &str, reasoning: bool)
    ensures
        final(parts).view() == old(parts).view().push(t@),
        delta_views(final(deltas)@) == delta_views(old(deltas)@).push(
            if reasoning { DeltaView::Reasoning(t@) } else { DeltaView::Text(t@) },
        ),
{
    parts.push(owned(t));
    let ghost before = deltas@;
    if reasoning {
        deltas.push(StreamDelta::Reasoning(owned(t)));
    } else {
        deltas.push(StreamDelta::Text(owned(t)));
    }
    proof {
        assert(delta_views(deltas@) =~= delta_views(before).push(deltas@.last()@));
    }
}

/// The assembled calls that become tool calls: all of them, or only those
/// that received a name.
pub open spec fn kept_calls(calls: Seq<CallView>, only_named: bool) -> Seq<CallView>
    decreases calls.len(),
{
    if calls.len() == 0 {
        Seq::empty()
    } else {
        let rest = kept_calls(calls.drop_last(), only_named);
        if only_named && calls.last().name.len() == 0 {
            rest
        } else {
            rest.push(calls.last())
        }
    }
}

/// The drafts of the assembled calls; an argument text that does not
/// decode is kept under `_raw`.
pub open spec fn call_drafts_match(calls: Seq<CallView>, drafts: Seq<ToolCallDraft>) -> bool {
    &&& drafts.len() == calls.len()
    &&& forall|i: int| 0 <= i < calls.len() ==> {
        &&& #[trigger] drafts[i].id@ == calls[i].id
        &&& drafts[i].name@ == calls[i].name
        &&& drafts[i].arguments matches ArgumentsDraft::Text { text, keep_raw } && text@ == calls[i].args && keep_raw
    }
}

fn drafts_of(calls: &Vec<CallAccum>, only_named: bool) -> (r: Vec<ToolCallDraft>)
    ensures
        call_drafts_match(kept_calls(call_views(calls@), only_named), r@),
{
    let ghost cv = call_views(calls@);
    let mut out: Vec<ToolCallDraft> = Vec::new();
    let mut i: usize = 0;
    while i < calls.len()
        invariant
            i <= calls.len(),
            cv == call_views(calls@),
            call_drafts_match(kept_calls(cv.subrange(0, i as int), only_named), out@),
        decreases calls.len() - i,
    {
        proof {
            assert(cv.subrange(0, i + 1).drop_last() =~= cv.subrange(0, i as int));
            assert(cv.subrange(0, i + 1).last() == calls@[i as int]@);
        }
        let c = &calls[i];
        if !(only_named && c.name.as_str().is_empty()) {
            let ghost before = out@;
            out.push(ToolCallDraft {
                id: c.id.clone(),
                name: c.name.clone(),
                arguments: ArgumentsDraft::Text { text: c.args.clone(), keep_raw: true },
            });
            proof {
                let k = kept_calls(cv.subrange(0, i + 1), only_named);
                assert(k == kept_calls(cv.subrange(0, i as int), only_named).push(cv[i as int]));
                assert forall|j: int| 0 <= j < k.len() implies {
                    &&& #[trigger] out@[j].id@ == k[j].id
                    &&& out@[j].name@ == k[j].name
                    &&& out@[j].arguments matches ArgumentsDraft::Text { text, keep_raw } && text@ == k[j].args && keep_raw
                } by {
                    if j < before.len() {
                        assert(out@[j] == before[j]);
                    }
                }
            }
        }
        i = i + 1;
    }
    proof {
        assert(cv.subrange(0, calls@.len() as int) =~= cv);
    }
    out
}

/// `parts` with `t` added when it is a non-empty text.
pub open spec fn nonempty_part(parts: Seq<Seq<char>>, t: Option<Seq<char>>) -> Seq<Seq<char>> {
    match t {
        Some(x) => if x.len() > 0 {
            parts.push(x)
        } else {
            parts
        },
        None => parts,
    }
}

/// The delta forwarded for `t` when it is a non-empty text.
pub open spec fn nonempty_delta(t: Option<Seq<char>>, reasoning: bool) -> Seq<DeltaView> {
    match t {
        Some(x) => if x.len() > 0 {
            seq![if reasoning { DeltaView::Reasoning(x) } else { DeltaView::Text(x) }]
        } else {
            Seq::empty()
        },
        None => Seq::empty(),
    }
}

fn forward(parts: &mut Parts, deltas: &mut Vec<StreamDelta>, t: Option<&str>, reasoning: bool)
    ensures
        final(parts).view() == nonempty_part(old(parts).view(), match t {
            Some(x) => Some(x@),
            None => None,
        }),
        delta_views(final(deltas)@) == delta_views(old(deltas)@) + nonempty_delta(match t {
            Some(x) => Some(x@),
            None => None,
        }, reasoning),
{
    match t {
        Some(x) => {
            if !x.is_empty() {
                push_part(parts, deltas, x, reasoning);
            }
        },
        None => {},
    }
    proof {
        assert(delta_views(deltas@) =~= delta_views(old(deltas)@) + nonempty_delta(match t {
            Some(x) => Some(x@),
            None => None,
        }, reasoning));
    }
}

/// Apply one streamed call piece: fill in its id and name, append its
/// argument text, at the position the piece names.
fn absorb_call(calls: &mut Vec<CallAccum>, idx: u64, id: Option<&str>, function: Option<&Json>)
    ensures
        call_views(final(calls)@) == call_piece(call_views(old(calls)@), idx as nat, match id {
            Some(x) => Some(x@),
            None => None,
        }, match function {
            Some(f) => Some(f@),
            None => None,
        }),
{
    pad_calls(calls, idx);
    let ghost padded_calls = call_views(calls@);
    let n = calls.len();
    assert(idx < n);
    let i = idx as usize;
    assert(i == idx);
    let ghost before = calls@;
    let mut c = calls.remove(i);
    match id {
        Some(x) => {
            c.id = owned(x);
        },
        None => {},
    }
    match function {
        Some(f) => {
            match f.str_field("name") {
                Some(n) => {
                    c.name = owned(n);
                },
                None => {},
            }
            match f.str_field("arguments") {
                Some(a) => {
                    c.args.append(a);
                },
                None => {
                    assert(c.args@ + or_empty(None) =~= c.args@);
                },
            }
        },
        None => {},
    }
    calls.insert(i, c);
    proof {
        assert(calls@ =~= before.update(i as int, c));
        assert(call_views(calls@) =~= padded_calls.update(i as int, c@));
    }
}

/// A call piece applied at position `idx`, blanks added before it as
/// needed.
pub open spec fn call_piece(
    calls: Seq<CallView>,
    idx: nat,
    id: Option<Seq<char>>,
    function: Option<JsonView>,
) -> Seq<CallView> {
    let p = padded(calls, idx);
    let c = p[idx as int];
    let id2 = match id {
        Some(v) => v,
        None => c.id,
    };
    let name2 = match function {
        Some(f) => match f.str_field("name"@) {
            Some(n) => n,
            None => c.name,
        },
        None => c.name,
    };
    let args2 = match function {
        Some(f) => c.args + or_empty(f.str_field("arguments"@)),
        None => c.args,
    };
    p.update(idx as int, CallView { id: id2, name: name2, args: args2 })
}

// -- Chat Completions ---------------------------------------------------------

/// A Chat Completions line: blank lines, comments and lines that are not
/// `data: ` lines are skipped; `[DONE]` ends the stream.
pub open spec fn chat_line(line: Seq<char>) -> LineView {
    let t = seq_trim(line);
    if t.len() == 0 || seq_starts_with(t, ":"@) {
        LineView::Skip
    } else {
        match data_payload(t) {
            Some(p) => if p == "[DONE]"@ {
                LineView::Stop
            } else {
                LineView::Payload(p)
            },
            None => LineView::Skip,
        }
    }
}

/// One entry of a chunk's `tool_calls`.
pub open spec fn chat_call_step(calls: Seq<CallView>, tc: JsonView) -> Seq<CallView> {
    call_piece(calls, index_of(tc), tc.str_field("id"@), tc.get("function"@))
}

pub open spec fn chat_calls_step(calls: Seq<CallView>, tcs: Seq<JsonView>) -> Seq<CallView>
    decreases tcs.len(),
{
    if tcs.len() == 0 {
        calls
    } else {
        chat_call_step(chat_calls_step(calls, tcs.drop_last()), tcs.last())
    }
}

pub open spec fn first_choice(chunk: JsonView) -> Option<JsonView> {
    match chunk.get("choices"@) {
        Some(JsonView::Array(cs)) => if cs.len() > 0 {
            Some(cs[0])
        } else {
            None
        },
        _ => None,
    }
}

pub struct ChatStreamView {
    pub text: Seq<Seq<char>>,
    pub reasoning: Seq<Seq<char>>,
    pub calls: Seq<CallView>,
    pub finish: Option<Seq<char>>,
    pub usage: Option<TokenUsage>,
    pub done: bool,
}

/// The reader after one Chat Completions chunk.
pub open spec fn chat_step(s: ChatStreamView, chunk: JsonView) -> ChatStreamView {
    let usage = match chunk.get("usage"@) {
        Some(u) => Some(chat_usage_of(u)),
        None => s.usage,
    };
    match first_choice(chunk) {
        Some(choice) => {
            let delta = or_null(choice.get("delta"@));
            ChatStreamView {
                text: nonempty_part(s.text, delta.str_field("content"@)),
                reasoning: nonempty_part(s.reasoning, chat_reasoning(delta)),
                calls: match delta.get("tool_calls"@) {
                    Some(JsonView::Array(tcs)) => chat_calls_step(s.calls, tcs),
                    _ => s.calls,
                },
                finish: match choice.str_field("finish_reason"@) {
                    Some(f) => Some(f),
                    None => s.finish,
                },
                usage,
                done: s.done,
            }
        },
        None => ChatStreamView {
            text: s.text,
            reasoning: s.reasoning,
            calls: s.calls,
            finish: s.finish,
            usage,
            done: s.done,
        },
    }
}

/// The deltas forwarded for one chunk: its text, then its reasoning.
pub open spec fn chat_deltas(chunk: JsonView) -> Seq<DeltaView> {
    match first_choice(chunk) {
        Some(choice) => {
            let delta = or_null(choice.get("delta"@));
            nonempty_delta(delta.str_field("content"@), false) + nonempty_delta(chat_reasoning(delta), true)
        },
        None => Seq::empty(),
    }
}

pub open spec fn chat_stopped(s: ChatStreamView) -> ChatStreamView {
    ChatStreamView {
        text: s.text,
        reasoning: s.reasoning,
        calls: s.calls,
        finish: s.finish,
        usage: s.usage,
        done: true,
    }
}

/// Streamed tool-call arguments accumulate in order: a Chat Completions chunk
/// whose first choice carries one `tool_calls` entry with `index` `i` and a
/// `function.arguments` fragment appends that fragment to the argument text
/// already assembled for call `i` (empty for a call not seen before), takes
/// the entry's `id` and `function.name` when it carries them (else keeps
/// those already seen), and leaves every other call as it was.
pub proof fn law_chat_tool_arguments_concatenate(
    s: ChatStreamView,
    chunk: JsonView,
    choices: Seq<JsonView>,
    tc: JsonView,
    f: JsonView,
    i: u64,
    fragment: Seq<char>,
)
    requires
        chunk.get("choices"@) == Some(JsonView::Array(choices)),
        choices.len() > 0,
        choices[0].get("delta"@) matches Some(delta) && delta.get("tool_calls"@) == Some(
            JsonView::Array(seq![tc]),
        ),
        tc.get("index"@) == Some(JsonView::Number(NumberView::PosInt(i))),
        tc.get("function"@) == Some(f),
        f.get("arguments"@) == Some(JsonView::Str(fragment)),
    ensures
        ({
            let after = chat_step(s, chunk).calls;
            &&& after.len() == if i < s.calls.len() {
                s.calls.len() as int
            } else {
                i + 1
            }
            &&& i < s.calls.len() ==> after[i as int].args == s.calls[i as int].args + fragment
            &&& i >= s.calls.len() ==> after[i as int].args == fragment
            &&& forall|j: int| 0 <= j < s.calls.len() && j != i ==> after[j] == s.calls[j]
            &&& forall|x: Seq<char>| tc.get("id"@) == Some(JsonView::Str(x)) ==> after[i as int].id == x
            &&& tc.get("id"@) is None && i < s.calls.len() ==> after[i as int].id == s.calls[i as int].id
            &&& forall|x: Seq<char>| f.get("name"@) == Some(JsonView::Str(x)) ==> after[i as int].name == x
            &&& f.get("name"@) is None && i < s.calls.len() ==> after[i as int].name == s.calls[i as int].name
        }),
{
    let tcs = seq![tc];
    assert(tcs.drop_last() =~= Seq::<JsonView>::empty());
    assert(tcs.last() == tc);
    assert(chat_calls_step(s.calls, tcs.drop_last()) == s.calls);
    assert(chat_calls_step(s.calls, tcs) == chat_call_step(s.calls, tc));
    assert(index_of(tc) == i);
    let p = padded(s.calls, i as nat);
    assert(p.len() == if i < s.calls.len() {
        s.calls.len() as int
    } else {
        i + 1
    });
    assert(i >= s.calls.len() ==> p[i as int] == blank_call());
    assert(forall|j: int| 0 <= j < s.calls.len() ==> p[j] == s.calls[j]);
    assert(i >= s.calls.len() ==> Seq::<char>::empty() + fragment =~= fragment);
}

/// The Chat Completions stream reader.
pub struct ChatStream {
    text: Parts,
    reasoning: Parts,
    calls: Vec<CallAccum>,
    finish: Option<String>,
    usage: Option<TokenUsage>,
    done: bool,
}

impl View for ChatStream {
    type V = ChatStreamView;

    closed spec fn view(&self) -> ChatStreamView {
        ChatStreamView {
            text: self.text.view(),
            reasoning: self.reasoning.view(),
            calls: call_views(self.calls@),
            finish: opt_text(self.finish),
            usage: self.usage,
            done: self.done,
        }
    }
}

fn usage_json(u: Option<TokenUsage>) -> (r: Option<Json>)
    ensures
        match u {
            Some(t) => r matches Some(x) && x@ == usage_view(t),
            None => r is None,
        },
{
    match u {
        Some(t) => Some(t.to_json()),
        None => None,
    }
}

impl ChatStream {
    pub fn new() -> (s: Self)
        ensures
            s@ == (ChatStreamView {
                text: Seq::empty(),
                reasoning: Seq::empty(),
                calls: Seq::empty(),
                finish: None,
                usage: None,
                done: false,
            }),
    {
        let s = ChatStream {
            text: Parts::new(),
            reasoning: Parts::new(),
            calls: Vec::new(),
            finish: None,
            usage: None,
            done: false,
        };
        assert(call_views(s.calls@) =~= Seq::<CallView>::empty());
        s
    }

    /// Classify one line; `[DONE]` marks the stream as ended.
    pub fn line(&mut self, line: &str) -> (r: LineStep)
        ensures
            r@ == chat_line(line@),
            final(self)@ == if r@ is Stop {
                chat_stopped(old(self)@)
            } else {
                old(self)@
            },
    {
        let t = crate::text::trim(line);
        if t.as_str().is_empty() || crate::text::starts_with(t.as_str(), ":") {
            return LineStep::Skip;
        }
        match crate::text::strip_prefix(t.as_str(), "data: ") {
            Some(p) => {
                if crate::text::str_eq(p.as_str(), "[DONE]") {
                    self.done = true;
                    LineStep::Stop
                } else {
                    LineStep::Payload(p)
                }
            },
            None => LineStep::Skip,
        }
    }

    /// Take in one decoded chunk; returns the deltas to forward.
    /// Take in one event payload: a payload that decodes as JSON is taken
    /// in as a chunk; any other payload is skipped.
    pub fn absorb_payload(&mut self, payload: &str) -> (deltas: Vec<StreamDelta>)
        ensures
            match crate::decoding::json_decoding(payload@) {
                None => final(self)@ == old(self)@ && deltas@.len() == 0,
                Some(c) => final(self)@ == chat_step(old(self)@, c) && delta_views(deltas@) == chat_deltas(c),
            },
    {
        match crate::decoding::decode_json(payload) {
            Some(chunk) => self.absorb(&chunk),
            None => Vec::new(),
        }
    }

    pub fn absorb(&mut self, chunk: &Json) -> (deltas: Vec<StreamDelta>)
        ensures
            final(self)@ == chat_step(old(self)@, chunk@),
            delta_views(deltas@) == chat_deltas(chunk@),
    {
        let mut deltas: Vec<StreamDelta> = Vec::new();
        proof {
            assert(delta_views(deltas@) =~= Seq::<DeltaView>::empty());
        }
        match chunk.get("usage") {
            Some(u) => {
                self.usage = Some(chat_usage(u));
            },
            None => {},
        }
        let choice = match chunk.get("choices") {
            Some(Json::Array(cs)) => {
                proof {
                    crate::json::lemma_items_view(cs@);
                }
                if cs.len() > 0 {
                    &cs[0]
                } else {
                    return deltas;
                }
            },
            _ => {
                return deltas;
            },
        };
        let null = Json::Null;
        let delta = match choice.get("delta") {
            Some(d) => d,
            None => &null,
        };
        forward(&mut self.text, &mut deltas, delta.str_field("content"), false);
        let r = match delta.get("reasoning_content") {
            Some(v) => v.as_str(),
            None => delta.str_field("reasoning"),
        };
        forward(&mut self.reasoning, &mut deltas, r, true);
        match delta.get("tool_calls") {
            Some(Json::Array(tcs)) => {
                proof {
                    crate::json::lemma_items_view(tcs@);
                }
                let ghost tv = items_view(tcs@);
                let ghost start = call_views(self.calls@);
                let ghost text0 = self.text.view();
                let ghost reasoning0 = self.reasoning.view();
                let ghost finish0 = self.finish;
                let ghost usage0 = self.usage;
                let ghost done0 = self.done;
                let mut j: usize = 0;
                while j < tcs.len()
                    invariant
                        j <= tcs.len(),
                        self.text.view() == text0,
                        self.reasoning.view() == reasoning0,
                        self.finish == finish0,
                        self.usage == usage0,
                        self.done == done0,
                        tv == items_view(tcs@),
                        tv.len() == tcs@.len(),
                        forall|x: int| 0 <= x < tcs@.len() ==> #[trigger] tv[x] == tcs@[x]@,
                        call_views(self.calls@) == chat_calls_step(start, tv.subrange(0, j as int)),
                    decreases tcs.len() - j,
                {
                    proof {
                        assert(tv.subrange(0, j + 1).drop_last() =~= tv.subrange(0, j as int));
                        assert(tv.subrange(0, j + 1).last() == tcs@[j as int]@);
                    }
                    let tc = &tcs[j];
                    absorb_call(&mut self.calls, index_exec(tc), tc.str_field("id"), tc.get("function"));
                    j = j + 1;
                }
                proof {
                    assert(tv.subrange(0, tcs@.len() as int) =~= tv);
                }
            },
            _ => {},
        }
        match choice.str_field("finish_reason") {
            Some(f) => {
                self.finish = Some(owned(f));
            },
            None => {},
        }
        deltas
    }

    /// The reply draft; a stream that ended without `[DONE]` and without a
    /// finish reason was cut off.
    pub fn finish(self) -> (r: Result<ReplyDraft, String>)
        ensures
            r is Err <==> (!self@.done && self@.finish is None),
            r matches Err(e) ==> e@ == "connection closed before the provider stream reached a terminal event"@,
            r matches Ok(d) ==> {
                &&& opt_text(d.text) == joined_or_none(self@.text)
                &&& opt_text(d.reasoning) == joined_or_none(self@.reasoning)
                &&& call_drafts_match(kept_calls(self@.calls, false), d.tool_calls@)
                &&& opt_text(d.finish_reason) == self@.finish
                &&& match self@.usage {
                    Some(u) => d.usage matches Some(x) && x@ == usage_view(u),
                    None => d.usage is None,
                }
            },
    {
        if !self.done && self.finish.is_none() {
            return Err("connection closed before the provider stream reached a terminal event".to_string());
        }
        let text = self.text.joined();
        let reasoning = self.reasoning.joined();
        let tool_calls = drafts_of(&self.calls, false);
        Ok(ReplyDraft { text, reasoning, tool_calls, finish_reason: self.finish, usage: usage_json(self.usage) })
    }
}

// -- Messages (Anthropic) -------------------------------------------------------

/// A Messages line: blank lines, comments, `event:` lines and lines that are
/// not `data: ` lines are skipped.
pub open spec fn anthropic_line(line: Seq<char>) -> LineView {
    let t = seq_trim(line);
    if t.len() == 0 || seq_starts_with(t, ":"@) || seq_starts_with(t, "event:"@) {
        LineView::Skip
    } else {
        match data_payload(t) {
            Some(p) => LineView::Payload(p),
            None => LineView::Skip,
        }
    }
}

/// The usage a Messages stream has reported: the counts of `message_start`
/// (with `output` later replaced by `message_delta`), or, when no counts
/// came first, only an output count (`{}` until one comes).
#[derive(Debug, Clone, Copy, PartialEq, Eq, Structural)]
pub enum UsageState {
    Counts(TokenUsage),
    Output(Option<i64>),
}

/// The usage after a `message_delta` that reports `output_tokens`.
pub open spec fn usage_after(prev: Option<UsageState>, out: Option<i64>) -> UsageState {
    match prev {
        None => UsageState::Output(out),
        Some(UsageState::Counts(t)) => match out {
            Some(n) => UsageState::Counts(TokenUsage { output: n, ..t }),
            None => UsageState::Counts(t),
        },
        Some(UsageState::Output(o)) => UsageState::Output(
            match out {
                Some(n) => Some(n),
                None => o,
            },
        ),
    }
}

/// The usage object of the reply.
pub open spec fn usage_state_view(u: UsageState) -> JsonView {
    match u {
        UsageState::Counts(t) => usage_view(t),
        UsageState::Output(None) => JsonView::Object(Seq::empty()),
        UsageState::Output(Some(n)) => JsonView::Object(seq![("output"@, crate::provider::replies::int_view(n))]),
    }
}

/// A content block that names a tool call at position `idx`.
pub open spec fn named_piece(calls: Seq<CallView>, idx: nat, id: Option<Seq<char>>, name: Option<Seq<char>>) -> Seq<CallView> {
    let p = padded(calls, idx);
    let c = p[idx as int];
    p.update(
        idx as int,
        CallView {
            id: match id {
                Some(v) => v,
                None => c.id,
            },
            name: match name {
                Some(v) => v,
                None => c.name,
            },
            args: c.args,
        },
    )
}

pub struct AnthropicStreamView {
    pub text: Seq<Seq<char>>,
    pub reasoning: Seq<Seq<char>>,
    pub calls: Seq<CallView>,
    pub finish: Option<Seq<char>>,
    pub usage: Option<UsageState>,
    pub done: bool,
}

pub open spec fn chunk_kind(chunk: JsonView) -> Seq<char> {
    or_empty(chunk.str_field("type"@))
}

/// The calls after a `content_block_start`.
pub open spec fn block_start_calls(calls: Seq<CallView>, chunk: JsonView) -> Seq<CallView> {
    let idx = index_of(chunk);
    match chunk.get("content_block"@) {
        Some(b) => if or_empty(b.str_field("type"@)) == "tool_use"@ {
            named_piece(calls, idx, b.str_field("id"@), b.str_field("name"@))
        } else {
            padded(calls, idx)
        },
        None => padded(calls, idx),
    }
}

/// The type of a `content_block_delta`'s delta.
pub open spec fn delta_kind(chunk: JsonView) -> Seq<char> {
    match chunk.get("delta"@) {
        Some(d) => or_empty(d.str_field("type"@)),
        None => Seq::empty(),
    }
}

pub open spec fn delta_text(chunk: JsonView, key: Seq<char>) -> Option<Seq<char>> {
    match chunk.get("delta"@) {
        Some(d) => d.str_field(key),
        None => None,
    }
}

/// The reader after one Messages event.
pub open spec fn anthropic_step(s: AnthropicStreamView, chunk: JsonView) -> AnthropicStreamView {
    let kind = chunk_kind(chunk);
    if kind == "message_start"@ {
        AnthropicStreamView {
            usage: match chunk.get("message"@) {
                Some(m) => match m.get("usage"@) {
                    Some(u) => Some(UsageState::Counts(crate::provider::replies::anthropic_usage_of(u))),
                    None => s.usage,
                },
                None => s.usage,
            },
            ..s
        }
    } else if kind == "content_block_start"@ {
        AnthropicStreamView { calls: block_start_calls(s.calls, chunk), ..s }
    } else if kind == "content_block_delta"@ {
        let dk = delta_kind(chunk);
        if dk == "text_delta"@ {
            AnthropicStreamView { text: nonempty_part(s.text, delta_text(chunk, "text"@)), ..s }
        } else if dk == "thinking_delta"@ {
            AnthropicStreamView { reasoning: nonempty_part(s.reasoning, delta_text(chunk, "thinking"@)), ..s }
        } else if dk == "input_json_delta"@ && delta_text(chunk, "partial_json"@) is Some && index_of(chunk) < s.calls.len() {
            let idx = index_of(chunk) as int;
            let c = s.calls[idx];
            AnthropicStreamView {
                calls: s.calls.update(
                    idx,
                    CallView { id: c.id, name: c.name, args: c.args + delta_text(chunk, "partial_json"@).unwrap() },
                ),
                ..s
            }
        } else {
            s
        }
    } else if kind == "message_delta"@ {
        AnthropicStreamView {
            finish: match delta_text(chunk, "stop_reason"@) {
                Some(r) => Some(crate::provider::stop_reason_of(r)),
                None => s.finish,
            },
            usage: match chunk.get("usage"@) {
                Some(u) => Some(usage_after(s.usage, match u.get("output_tokens"@) {
                    Some(v) => v.as_i64(),
                    None => None,
                })),
                None => s.usage,
            },
            ..s
        }
    } else if kind == "message_stop"@ {
        AnthropicStreamView { done: true, ..s }
    } else {
        s
    }
}

/// Streamed tool input accumulates in order: a Messages
/// `content_block_delta` event whose delta is an `input_json_delta` for the
/// started block `i` appends its `partial_json` fragment to the input text
/// already assembled for that block, and leaves everything else as it was.
pub proof fn law_anthropic_tool_input_concatenates(
    s: AnthropicStreamView,
    chunk: JsonView,
    d: JsonView,
    i: u64,
    fragment: Seq<char>,
)
    requires
        chunk.get("type"@) == Some(JsonView::Str("content_block_delta"@)),
        chunk.get("index"@) == Some(JsonView::Number(NumberView::PosInt(i))),
        i < s.calls.len(),
        chunk.get("delta"@) == Some(d),
        d.get("type"@) == Some(JsonView::Str("input_json_delta"@)),
        d.get("partial_json"@) == Some(JsonView::Str(fragment)),
    ensures
        ({
            let after = anthropic_step(s, chunk);
            &&& after.calls.len() == s.calls.len()
            &&& after.calls[i as int].args == s.calls[i as int].args + fragment
            &&& after.calls[i as int].id == s.calls[i as int].id
            &&& after.calls[i as int].name == s.calls[i as int].name
            &&& forall|j: int| 0 <= j < s.calls.len() && j != i ==> after.calls[j] == s.calls[j]
            &&& after.text == s.text && after.reasoning == s.reasoning
            &&& after.finish == s.finish && after.usage == s.usage && after.done == s.done
        }),
{
    reveal_strlit("content_block_delta");
    reveal_strlit("content_block_start");
    reveal_strlit("message_start");
    reveal_strlit("input_json_delta");
    reveal_strlit("text_delta");
    reveal_strlit("thinking_delta");
    assert("content_block_delta"@.len() == 19 && "message_start"@.len() == 13);
    assert("content_block_delta"@[14] != "content_block_start"@[14]);
    assert("input_json_delta"@.len() == 16 && "text_delta"@.len() == 10);
    assert("thinking_delta"@.len() == 14);
    assert(chunk_kind(chunk) == "content_block_delta"@);
    assert(delta_kind(chunk) == "input_json_delta"@);
    assert(index_of(chunk) == i);
}

/// The deltas forwarded for one Messages event.
pub open spec fn anthropic_deltas(chunk: JsonView) -> Seq<DeltaView> {
    let kind = chunk_kind(chunk);
    if kind == "message_start"@ || kind == "content_block_start"@ {
        Seq::empty()
    } else if kind == "content_block_delta"@ {
        let dk = delta_kind(chunk);
        if dk == "text_delta"@ {
            nonempty_delta(delta_text(chunk, "text"@), false)
        } else if dk == "thinking_delta"@ {
            nonempty_delta(delta_text(chunk, "thinking"@), true)
        } else {
            Seq::empty()
        }
    } else {
        Seq::empty()
    }
}

/// The Messages stream reader.
pub struct AnthropicStream {
    text: Parts,
    reasoning: Parts,
    calls: Vec<CallAccum>,
    finish: Option<String>,
    usage: Option<UsageState>,
    done: bool,
}

impl View for AnthropicStream {
    type V = AnthropicStreamView;

    closed spec fn view(&self) -> AnthropicStreamView {
        AnthropicStreamView {
            text: self.text.view(),
            reasoning: self.reasoning.view(),
            calls: call_views(self.calls@),
            finish: opt_text(self.finish),
            usage: self.usage,
            done: self.done,
        }
    }
}

fn usage_state_json(u: UsageState) -> (r: Json)
    ensures
        r@ == usage_state_view(u),
{
    match u {
        UsageState::Counts(t) => t.to_json(),
        UsageState::Output(o) => {
            let mut members: Vec<(String, Json)> = Vec::new();
            match o {
                Some(n) => {
                    members.push((owned("output"), crate::provider::replies::int_json(n)));
                },
                None => {},
            }
            proof {
                crate::json::lemma_members_view(members@);
                assert(members_view(members@) =~= usage_state_view(u)->Object_0);
            }
            Json::Object(members)
        },
    }
}

fn str_or_empty_eq(v: Option<&str>, s: &str) -> (r: bool)
    ensures
        r == (or_empty(match v {
            Some(x) => Some(x@),
            None => None,
        }) == s@),
{
    match v {
        Some(x) => crate::text::str_eq(x, s),
        None => {
            let r = s.is_empty();
            proof {
                if r {
                    assert(s@ =~= Seq::<char>::empty());
                }
            }
            r
        },
    }
}

impl AnthropicStream {
    pub fn new() -> (s: Self)
        ensures
            s@ == (AnthropicStreamView {
                text: Seq::empty(),
                reasoning: Seq::empty(),
                calls: Seq::empty(),
                finish: None,
                usage: None,
                done: false,
            }),
    {
        let s = AnthropicStream {
            text: Parts::new(),
            reasoning: Parts::new(),
            calls: Vec::new(),
            finish: None,
            usage: None,
            done: false,
        };
        assert(call_views(s.calls@) =~= Seq::<CallView>::empty());
        s
    }

    /// Classify one line.
    pub fn line(&self, line: &str) -> (r: LineStep)
        ensures
            r@ == anthropic_line(line@),
    {
        let t = crate::text::trim(line);
        if t.as_str().is_empty() || crate::text::starts_with(t.as_str(), ":") || crate::text::starts_with(
            t.as_str(),
            "event:",
        ) {
            return LineStep::Skip;
        }
        match crate::text::strip_prefix(t.as_str(), "data: ") {
            Some(p) => LineStep::Payload(p),
            None => LineStep::Skip,
        }
    }

    /// The stream has delivered `message_stop`.
    pub fn is_done(&self) -> (r: bool)
        ensures
            r == self@.done,
    {
        self.done
    }

    /// Take in one decoded event; returns the deltas to forward.
    /// Take in one event payload: a payload that decodes as JSON is taken
    /// in as a chunk; any other payload is skipped.
    pub fn absorb_payload(&mut self, payload: &str) -> (deltas: Vec<StreamDelta>)
        ensures
            match crate::decoding::json_decoding(payload@) {
                None => final(self)@ == old(self)@ && deltas@.len() == 0,
                Some(c) => final(self)@ == anthropic_step(old(self)@, c) && delta_views(deltas@) == anthropic_deltas(c),
            },
    {
        match crate::decoding::decode_json(payload) {
            Some(chunk) => self.absorb(&chunk),
            None => Vec::new(),
        }
    }

    pub fn absorb(&mut self, chunk: &Json) -> (deltas: Vec<StreamDelta>)
        ensures
            final(self)@ == anthropic_step(old(self)@, chunk@),
            delta_views(deltas@) == anthropic_deltas(chunk@),
    {
        let mut deltas: Vec<StreamDelta> = Vec::new();
        proof {
            assert(delta_views(deltas@) =~= Seq::<DeltaView>::empty());
        }
        let kind = chunk.str_field("type");
        if str_or_empty_eq(kind, "message_start") {
            match chunk.get("message") {
                Some(m) => match m.get("usage") {
                    Some(u) => {
                        self.usage = Some(UsageState::Counts(crate::provider::replies::anthropic_usage_json(u)));
                    },
                    None => {},
                },
                None => {},
            }
        } else if str_or_empty_eq(kind, "content_block_start") {
            let idx = index_exec(chunk);
            let (tool, id, name) = match chunk.get("content_block") {
                Some(b) => {
                    if str_or_empty_eq(b.str_field("type"), "tool_use") {
                        (true, b.str_field("id"), b.str_field("name"))
                    } else {
                        (false, None, None)
                    }
                },
                None => (false, None, None),
            };
            pad_calls(&mut self.calls, idx);
            if tool {
                let n = self.calls.len();
                assert(idx < n);
                let i = idx as usize;
                let ghost before = self.calls@;
                let mut c = self.calls.remove(i);
                match id {
                    Some(x) => {
                        c.id = owned(x);
                    },
                    None => {},
                }
                match name {
                    Some(x) => {
                        c.name = owned(x);
                    },
                    None => {},
                }
                self.calls.insert(i, c);
                proof {
                    assert(self.calls@ =~= before.update(i as int, c));
                    assert(call_views(self.calls@) =~= call_views(before).update(i as int, c@));
                }
            }
        } else if str_or_empty_eq(kind, "content_block_delta") {
            let idx = index_exec(chunk);
            match chunk.get("delta") {
                Some(d) => {
                    let dk = d.str_field("type");
                    if str_or_empty_eq(dk, "text_delta") {
                        forward(&mut self.text, &mut deltas, d.str_field("text"), false);
                    } else if str_or_empty_eq(dk, "thinking_delta") {
                        forward(&mut self.reasoning, &mut deltas, d.str_field("thinking"), true);
                    } else if str_or_empty_eq(dk, "input_json_delta") {
                        match d.str_field("partial_json") {
                            Some(pj) => {
                                if idx < self.calls.len() as u64 {
                                    let i = idx as usize;
                                    let ghost before = self.calls@;
                                    let mut c = self.calls.remove(i);
                                    c.args.append(pj);
                                    self.calls.insert(i, c);
                                    proof {
                                        assert(self.calls@ =~= before.update(i as int, c));
                                        assert(call_views(self.calls@) =~= call_views(before).update(i as int, c@));
                                    }
                                }
                            },
                            None => {},
                        }
                    }
                },
                None => {},
            }
        } else if str_or_empty_eq(kind, "message_delta") {
            match chunk.get("delta") {
                Some(d) => match d.str_field("stop_reason") {
                    Some(r) => {
                        self.finish = Some(crate::provider::map_stop_reason(r));
                    },
                    None => {},
                },
                None => {},
            }
            match chunk.get("usage") {
                Some(u) => {
                    let out = match u.get("output_tokens") {
                        Some(v) => v.as_i64(),
                        None => None,
                    };
                    let next = match self.usage {
                        None => UsageState::Output(out),
                        Some(UsageState::Counts(t)) => match out {
                            Some(n) => UsageState::Counts(TokenUsage { output: n, ..t }),
                            None => UsageState::Counts(t),
                        },
                        Some(UsageState::Output(o)) => UsageState::Output(
                            match out {
                                Some(n) => Some(n),
                                None => o,
                            },
                        ),
                    };
                    self.usage = Some(next);
                },
                None => {},
            }
        } else if str_or_empty_eq(kind, "message_stop") {
            self.done = true;
        }
        deltas
    }

    /// The reply draft: tool calls that never received a name are dropped.
    pub fn finish(self) -> (d: ReplyDraft)
        ensures
            opt_text(d.text) == joined_or_none(self@.text),
            opt_text(d.reasoning) == joined_or_none(self@.reasoning),
            call_drafts_match(kept_calls(self@.calls, true), d.tool_calls@),
            opt_text(d.finish_reason) == self@.finish,
            match self@.usage {
                Some(u) => d.usage matches Some(x) && x@ == usage_state_view(u),
                None => d.usage is None,
            },
    {
        let text = self.text.joined();
        let reasoning = self.reasoning.joined();
        let tool_calls = drafts_of(&self.calls, true);
        let usage = match self.usage {
            Some(u) => Some(usage_state_json(u)),
            None => None,
        };
        ReplyDraft { text, reasoning, tool_calls, finish_reason: self.finish, usage }
    }
}

// -- Responses ------------------------------------------------------------------

/// A Responses line: blank lines are skipped, `event: ` lines name the
/// events that follow, and lines that are not `data: ` lines are skipped.
pub open spec fn responses_line(line: Seq<char>) -> LineView {
    let t = seq_trim(line);
    if t.len() == 0 || seq_starts_with(t, "event: "@) {
        LineView::Skip
    } else {
        match data_payload(t) {
            Some(p) => LineView::Payload(p),
            None => LineView::Skip,
        }
    }
}

/// The event name an `event: ` line sets.
pub open spec fn line_event(line: Seq<char>) -> Option<Seq<char>> {
    let t = seq_trim(line);
    if t.len() > 0 && seq_starts_with(t, "event: "@) {
        Some(seq_trim(t.subrange("event: "@.len() as int, t.len() as int)))
    } else {
        None
    }
}

pub struct ResponsesStreamView {
    pub text: Seq<Seq<char>>,
    pub reasoning: Seq<Seq<char>>,
    pub last_response: Option<JsonView>,
    pub event: Option<Seq<char>>,
}

/// An event's kind: the last `event: ` name seen, else the payload's
/// `type`.
pub open spec fn responses_kind(s: ResponsesStreamView, chunk: JsonView) -> Seq<char> {
    match s.event {
        Some(e) => e,
        None => or_empty(chunk.str_field("type"@)),
    }
}

pub open spec fn is_terminal_kind(kind: Seq<char>) -> bool {
    kind == "response.completed"@ || kind == "response.incomplete"@ || kind == "response.failed"@
}

/// The reader after one Responses event.
pub open spec fn responses_step(s: ResponsesStreamView, chunk: JsonView) -> ResponsesStreamView {
    let kind = responses_kind(s, chunk);
    if kind == "response.output_text.delta"@ {
        ResponsesStreamView { text: nonempty_part(s.text, chunk.str_field("delta"@)), ..s }
    } else if kind == "response.reasoning_summary_text.delta"@ {
        ResponsesStreamView { reasoning: nonempty_part(s.reasoning, chunk.str_field("delta"@)), ..s }
    } else if is_terminal_kind(kind) && chunk.get("response"@) is Some {
        ResponsesStreamView { last_response: chunk.get("response"@), ..s }
    } else {
        s
    }
}

pub open spec fn responses_deltas(s: ResponsesStreamView, chunk: JsonView) -> Seq<DeltaView> {
    let kind = responses_kind(s, chunk);
    if kind == "response.output_text.delta"@ {
        nonempty_delta(chunk.str_field("delta"@), false)
    } else if kind == "response.reasoning_summary_text.delta"@ {
        nonempty_delta(chunk.str_field("delta"@), true)
    } else {
        Seq::empty()
    }
}

/// The Responses stream reader.
pub struct ResponsesStream {
    text: Parts,
    reasoning: Parts,
    last_response: Option<Json>,
    event: Option<String>,
}

impl View for ResponsesStream {
    type V = ResponsesStreamView;

    closed spec fn view(&self) -> ResponsesStreamView {
        ResponsesStreamView {
            text: self.text.view(),
            reasoning: self.reasoning.view(),
            last_response: match self.last_response {
                Some(r) => Some(r@),
                None => None,
            },
            event: opt_text(self.event),
        }
    }
}

impl ResponsesStream {
    pub fn new() -> (s: Self)
        ensures
            s@ == (ResponsesStreamView { text: Seq::empty(), reasoning: Seq::empty(), last_response: None, event: None }),
    {
        ResponsesStream { text: Parts::new(), reasoning: Parts::new(), last_response: None, event: None }
    }

    /// Classify one line; an `event: ` line names the events that follow.
    pub fn line(&mut self, line: &str) -> (r: LineStep)
        ensures
            r@ == responses_line(line@),
            final(self)@ == match line_event(line@) {
                Some(e) => ResponsesStreamView { event: Some(e), ..old(self)@ },
                None => old(self)@,
            },
    {
        let t = crate::text::trim(line);
        if t.as_str().is_empty() {
            return LineStep::Skip;
        }
        match crate::text::strip_prefix(t.as_str(), "event: ") {
            Some(rest) => {
                self.event = Some(crate::text::trim(rest.as_str()));
                return LineStep::Skip;
            },
            None => {},
        }
        match crate::text::strip_prefix(t.as_str(), "data: ") {
            Some(p) => LineStep::Payload(p),
            None => LineStep::Skip,
        }
    }

    /// Take in one decoded event; returns the deltas to forward.
    /// Take in one event payload: a payload that decodes as JSON is taken
    /// in as a chunk; any other payload is skipped.
    pub fn absorb_payload(&mut self, payload: &str) -> (deltas: Vec<StreamDelta>)
        ensures
            match crate::decoding::json_decoding(payload@) {
                None => final(self)@ == old(self)@ && deltas@.len() == 0,
                Some(c) => final(self)@ == responses_step(old(self)@, c) && delta_views(deltas@) == responses_deltas(old(self)@, c),
            },
    {
        match crate::decoding::decode_json(payload) {
            Some(chunk) => self.absorb(&chunk),
            None => Vec::new(),
        }
    }

    pub fn absorb(&mut self, chunk: &Json) -> (deltas: Vec<StreamDelta>)
        ensures
            final(self)@ == responses_step(old(self)@, chunk@),
            delta_views(deltas@) == responses_deltas(old(self)@, chunk@),
    {
        let mut deltas: Vec<StreamDelta> = Vec::new();
        proof {
            assert(delta_views(deltas@) =~= Seq::<DeltaView>::empty());
        }
        let kind = match &self.event {
            Some(e) => owned(e.as_str()),
            None => match chunk.str_field("type") {
                Some(t) => owned(t),
                None => String::new(),
            },
        };
        let k = kind.as_str();
        if crate::text::str_eq(k, "response.output_text.delta") {
            forward(&mut self.text, &mut deltas, chunk.str_field("delta"), false);
        } else if crate::text::str_eq(k, "response.reasoning_summary_text.delta") {
            forward(&mut self.reasoning, &mut deltas, chunk.str_field("delta"), true);
        } else if crate::text::str_eq(k, "response.completed") || crate::text::str_eq(k, "response.incomplete")
            || crate::text::str_eq(k, "response.failed") {
            match chunk.get("response") {
                Some(r) => {
                    self.last_response = Some(r.deep_clone());
                },
                None => {},
            }
        }
        deltas
    }

    /// The reply draft: the final response when one arrived, else the text
    /// and reasoning streamed so far.
    pub fn finish(self) -> (r: Result<ReplyDraft, String>)
        ensures
            r matches Ok(d) && match self@.last_response {
                Some(resp) => crate::provider::replies::responses_reply(resp, d),
                None => {
                    &&& opt_text(d.text) == joined_or_none(self@.text)
                    &&& opt_text(d.reasoning) == joined_or_none(self@.reasoning)
                    &&& d.tool_calls@.len() == 0
                    &&& d.finish_reason is None
                    &&& d.usage is None
                },
            },
    {
        match &self.last_response {
            Some(resp) => crate::provider::replies::parse_openai_responses(resp),
            None => {
                let text = self.text.joined();
                let reasoning = self.reasoning.joined();
                Ok(ReplyDraft { text, reasoning, tool_calls: Vec::new(), finish_reason: None, usage: None })
            },
        }
    }
}

} // verus!
