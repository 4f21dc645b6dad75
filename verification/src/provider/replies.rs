//! Provider replies, normalized: whatever protocol answered, the agent loop
//! receives `{text, tool_calls, finish_reason, reasoning, usage, extras}`.
//!
//! A reply is read in two steps. The protocol's reply body is read into a
//! draft here; a tool call's arguments that the protocol sends as JSON text
//! stay text in the draft. The host decodes those texts, and the draft is
//! then finished into the normalized reply.

use vstd::prelude::*;

use crate::json::{items_view, members_view, Json, JsonNumber, JsonView, NumberView};
use crate::provider::TokenUsage;
use crate::text::{names, owned};

verus! {

/// A signed count as JSON.
pub open spec fn int_view(i: i64) -> JsonView {
    if i >= 0 {
        JsonView::Number(NumberView::PosInt(i as u64))
    } else {
        JsonView::Number(NumberView::NegInt(i))
    }
}

pub fn int_json(i: i64) -> (j: Json)
    ensures
        j@ == int_view(i),
{
    if i >= 0 {
        Json::Number(JsonNumber::PosInt(i as u64))
    } else {
        Json::Number(JsonNumber::NegInt(i))
    }
}

/// Usage as the normalized reply shows it.
pub open spec fn usage_view(u: TokenUsage) -> JsonView {
    JsonView::Object(
        seq![
            ("cache_read"@, int_view(u.cache_read)),
            ("cache_write"@, int_view(u.cache_write)),
            ("input"@, int_view(u.input)),
            ("output"@, int_view(u.output)),
        ],
    )
}

impl TokenUsage {
    pub fn to_json(&self) -> (j: Json)
        ensures
            j@ == usage_view(*self),
    {
        let members = vec![
            ("cache_read".to_string(), int_json(self.cache_read)),
            ("cache_write".to_string(), int_json(self.cache_write)),
            ("input".to_string(), int_json(self.input)),
            ("output".to_string(), int_json(self.output)),
        ];
        proof {
            crate::json::lemma_members_view(members@);
            assert(members_view(members@) =~= seq![
                ("cache_read"@, int_view(self.cache_read)),
                ("cache_write"@, int_view(self.cache_write)),
                ("input"@, int_view(self.input)),
                ("output"@, int_view(self.output)),
            ]);
        }
        Json::Object(members)
    }
}

/// `value.get(a).and_then(|v| v.get(b))`.
pub open spec fn nested(v: JsonView, a: Seq<char>, b: Seq<char>) -> Option<JsonView> {
    match v.get(a) {
        Some(inner) => inner.get(b),
        None => None,
    }
}

/// An optional count read as 0 when absent or not a signed integer.
pub open spec fn count_or_zero(v: Option<JsonView>) -> i64 {
    match v {
        Some(x) => match x.as_i64() {
            Some(i) => i,
            None => 0,
        },
        None => 0,
    }
}

/// The usage of a Chat Completions reply: cached prompt tokens are
/// reported apart from the uncached input.
pub open spec fn chat_usage_of(u: JsonView) -> TokenUsage {
    let prompt = count_or_zero(u.get("prompt_tokens"@));
    let cached = count_or_zero(nested(u, "prompt_tokens_details"@, "cached_tokens"@));
    TokenUsage {
        input: prompt.wrapping_sub(cached),
        output: count_or_zero(u.get("completion_tokens"@)),
        cache_read: cached,
        cache_write: 0,
    }
}

/// The usage of an Anthropic reply, every count as given.
pub open spec fn anthropic_usage_of(u: JsonView) -> TokenUsage {
    TokenUsage {
        input: count_or_zero(u.get("input_tokens"@)),
        output: count_or_zero(u.get("output_tokens"@)),
        cache_read: count_or_zero(u.get("cache_read_input_tokens"@)),
        cache_write: count_or_zero(u.get("cache_creation_input_tokens"@)),
    }
}

/// A Chat Completions reply's usage reports cached prompt tokens apart:
/// `cache_read` is `usage.prompt_tokens_details.cached_tokens`, `input` is
/// `usage.prompt_tokens` less those, `output` is `usage.completion_tokens`,
/// and nothing is reported as written to the cache.
pub proof fn law_chat_usage_separates_cached_tokens(
    u: JsonView,
    details: JsonView,
    prompt: u64,
    completion: u64,
    cached: u64,
)
    requires
        prompt <= i64::MAX,
        completion <= i64::MAX,
        cached <= prompt,
        u.get("prompt_tokens"@) == Some(JsonView::Number(NumberView::PosInt(prompt))),
        u.get("completion_tokens"@) == Some(JsonView::Number(NumberView::PosInt(completion))),
        u.get("prompt_tokens_details"@) == Some(details),
        details.get("cached_tokens"@) == Some(JsonView::Number(NumberView::PosInt(cached))),
    ensures
        chat_usage_of(u).cache_read == cached,
        chat_usage_of(u).input == prompt - cached,
        chat_usage_of(u).output == completion,
        chat_usage_of(u).cache_write == 0,
{
}

/// An Anthropic reply's usage reports each count under its own key:
/// `cache_read` is `usage.cache_read_input_tokens`, `cache_write` is
/// `usage.cache_creation_input_tokens`, `input` and `output` are
/// `input_tokens` and `output_tokens`; a missing count is 0.
pub proof fn law_anthropic_usage_counts_by_key(u: JsonView, input: u64, output: u64, read: u64, write: u64)
    requires
        input <= i64::MAX,
        output <= i64::MAX,
        read <= i64::MAX,
        write <= i64::MAX,
    ensures
        u.get("cache_read_input_tokens"@) == Some(JsonView::Number(NumberView::PosInt(read)))
            ==> anthropic_usage_of(u).cache_read == read,
        u.get("cache_creation_input_tokens"@) == Some(JsonView::Number(NumberView::PosInt(write)))
            ==> anthropic_usage_of(u).cache_write == write,
        u.get("input_tokens"@) == Some(JsonView::Number(NumberView::PosInt(input)))
            ==> anthropic_usage_of(u).input == input,
        u.get("output_tokens"@) == Some(JsonView::Number(NumberView::PosInt(output)))
            ==> anthropic_usage_of(u).output == output,
        u.get("cache_read_input_tokens"@) is None ==> anthropic_usage_of(u).cache_read == 0,
        u.get("cache_creation_input_tokens"@) is None ==> anthropic_usage_of(u).cache_write == 0,
        u.get("input_tokens"@) is None ==> anthropic_usage_of(u).input == 0,
        u.get("output_tokens"@) is None ==> anthropic_usage_of(u).output == 0,
{
}

/// The usage of a Responses reply: input and output only.
pub open spec fn responses_usage_of(u: JsonView) -> TokenUsage {
    TokenUsage {
        input: count_or_zero(u.get("input_tokens"@)),
        output: count_or_zero(u.get("output_tokens"@)),
        cache_read: 0,
        cache_write: 0,
    }
}

fn count_of(v: Option<&Json>) -> (r: i64)
    ensures
        r == count_or_zero(match v {
            Some(x) => Some(x@),
            None => None,
        }),
{
    match v {
        Some(x) => match x.as_i64() {
            Some(i) => i,
            None => 0,
        },
        None => 0,
    }
}

pub fn chat_usage(u: &Json) -> (r: TokenUsage)
    ensures
        r == chat_usage_of(u@),
{
    let details = match u.get("prompt_tokens_details") {
        Some(d) => d.get("cached_tokens"),
        None => None,
    };
    crate::provider::openai_chat_usage(
        Some(count_of(u.get("prompt_tokens"))),
        Some(count_of(u.get("completion_tokens"))),
        Some(count_of(details)),
    )
}

pub fn anthropic_usage_json(u: &Json) -> (r: TokenUsage)
    ensures
        r == anthropic_usage_of(u@),
{
    TokenUsage {
        input: count_of(u.get("input_tokens")),
        output: count_of(u.get("output_tokens")),
        cache_read: count_of(u.get("cache_read_input_tokens")),
        cache_write: count_of(u.get("cache_creation_input_tokens")),
    }
}

pub fn responses_usage(u: &Json) -> (r: TokenUsage)
    ensures
        r == responses_usage_of(u@),
{
    TokenUsage {
        input: count_of(u.get("input_tokens")),
        output: count_of(u.get("output_tokens")),
        cache_read: 0,
        cache_write: 0,
    }
}

/// A tool call's arguments: decoded already, or JSON text the host
/// decodes. Text that does not decode becomes `{}`, or `{"_raw": text}`
/// where the protocol keeps what it could not read.
#[derive(Debug)]
pub enum ArgumentsDraft {
    Decoded(Json),
    Text { text: String, keep_raw: bool },
}

#[derive(Debug)]
pub struct ToolCallDraft {
    pub id: String,
    pub name: String,
    pub arguments: ArgumentsDraft,
}

/// A reply as read, before argument texts are decoded.
#[derive(Debug)]
pub struct ReplyDraft {
    pub text: Option<String>,
    pub reasoning: Option<String>,
    pub tool_calls: Vec<ToolCallDraft>,
    pub finish_reason: Option<String>,
    pub usage: Option<Json>,
}

pub open spec fn opt_view(o: Option<String>) -> JsonView {
    match o {
        Some(s) => JsonView::Str(s@),
        None => JsonView::Null,
    }
}

pub open spec fn opt_text(o: Option<String>) -> Option<Seq<char>> {
    match o {
        Some(s) => Some(s@),
        None => None,
    }
}

/// The arguments a tool call ends with, given what its text decoded to.
pub open spec fn final_arguments(a: ArgumentsDraft, decoded: Option<Json>) -> JsonView {
    match a {
        ArgumentsDraft::Decoded(v) => v@,
        ArgumentsDraft::Text { text, keep_raw } => match decoded {
            Some(v) => v@,
            None => if keep_raw {
                JsonView::Object(seq![("_raw"@, JsonView::Str(text@))])
            } else {
                JsonView::Object(Seq::empty())
            },
        },
    }
}

pub open spec fn call_view(c: ToolCallDraft, decoded: Option<Json>) -> JsonView {
    JsonView::Object(
        seq![
            ("arguments"@, final_arguments(c.arguments, decoded)),
            ("id"@, JsonView::Str(c.id@)),
            ("name"@, JsonView::Str(c.name@)),
        ],
    )
}

/// The normalized reply of a draft whose argument texts decoded to
/// `decoded`, call by call.
pub open spec fn reply_view(d: ReplyDraft, decoded: Seq<Option<Json>>) -> JsonView {
    JsonView::Object(
        seq![
            ("extras"@, JsonView::Object(Seq::empty())),
            ("finish_reason"@, opt_view(d.finish_reason)),
            ("reasoning"@, opt_view(d.reasoning)),
            ("text"@, opt_view(d.text)),
            ("tool_calls"@, JsonView::Array(
                Seq::new(d.tool_calls@.len(), |i: int| call_view(d.tool_calls@[i], decoded[i])),
            )),
            ("usage"@, match d.usage {
                Some(u) => u@,
                None => JsonView::Null,
            }),
        ],
    )
}

fn opt_json(o: Option<String>) -> (j: Json)
    ensures
        j@ == opt_view(o),
{
    match o {
        Some(s) => Json::String(s),
        None => Json::Null,
    }
}

/// What a call's argument text decodes to with serde_json; arguments that
/// were already decoded are not decoded again.
pub open spec fn argument_decoding(a: ArgumentsDraft) -> Option<JsonView> {
    match a {
        ArgumentsDraft::Text { text, .. } => crate::decoding::json_decoding(text@),
        ArgumentsDraft::Decoded(_) => None,
    }
}

/// The normalized reply, each tool call's argument text decoded as JSON.
pub fn finish_decoded(draft: ReplyDraft) -> (r: Json)
    ensures
        exists|decoded: Seq<Option<Json>>|
            #![trigger reply_view(draft, decoded)]
            decoded.len() == draft.tool_calls@.len() && (forall|i: int|
                0 <= i < decoded.len() ==> #[trigger] crate::decoding::decoded_view(decoded[i]) == argument_decoding(
                    draft.tool_calls@[i].arguments,
                )) && r@ == reply_view(draft, decoded),
{
    let mut decoded: Vec<Option<Json>> = Vec::new();
    let mut i: usize = 0;
    while i < draft.tool_calls.len()
        invariant
            i <= draft.tool_calls.len(),
            decoded@.len() == i,
            forall|j: int| 0 <= j < i ==> #[trigger] crate::decoding::decoded_view(decoded@[j]) == argument_decoding(
                draft.tool_calls@[j].arguments,
            ),
        decreases draft.tool_calls.len() - i,
    {
        let d = match &draft.tool_calls[i].arguments {
            ArgumentsDraft::Text { text, .. } => crate::decoding::decode_json(text.as_str()),
            ArgumentsDraft::Decoded(_) => None,
        };
        decoded.push(d);
        i = i + 1;
    }
    let ghost dv = decoded@;
    let r = finish_reply(draft, decoded);
    assert(r@ == reply_view(draft, dv));
    r
}

/// The normalized reply.
pub fn finish_reply(draft: ReplyDraft, decoded: Vec<Option<Json>>) -> (r: Json)
    requires
        decoded@.len() == draft.tool_calls@.len(),
    ensures
        r@ == reply_view(draft, decoded@),
{
    let ghost d = draft;
    let ghost dec = decoded@;
    let ReplyDraft { text, reasoning, tool_calls, finish_reason, usage } = draft;
    let n = tool_calls.len();
    let mut calls = tool_calls;
    let mut pending = decoded;
    let mut items: Vec<Json> = Vec::new();
    let mut i: usize = 0;
    while i < n
        invariant
            i <= n == d.tool_calls@.len(),
            calls@ == d.tool_calls@.subrange(i as int, n as int),
            dec.len() == n,
            pending@ == dec.subrange(i as int, n as int),
            items@.len() == i,
            forall|j: int| 0 <= j < i ==> #[trigger] items@[j]@ == call_view(d.tool_calls@[j], dec[j]),
        decreases n - i,
    {
        let ghost calls_before = calls@;
        let ghost decoded_before = pending@;
        let call = calls.remove(0);
        let value = pending.remove(0);
        proof {
            assert(calls_before[0] == d.tool_calls@[i as int]);
            assert(calls@ =~= d.tool_calls@.subrange(i + 1, n as int));
            assert(decoded_before[0] == dec[i as int]);
            assert(pending@ =~= dec.subrange(i + 1, n as int));
        }
        let ghost value_view = value;
        let ToolCallDraft { id, name, arguments } = call;
        let ghost arguments_view = arguments;
        let arguments_json = match arguments {
            ArgumentsDraft::Decoded(v) => v,
            ArgumentsDraft::Text { text, keep_raw } => match value {
                Some(v) => v,
                None => if keep_raw {
                    let ghost t = text@;
                    let raw = vec![("_raw".to_string(), Json::String(text))];
                    proof {
                        crate::json::lemma_members_view(raw@);
                        assert(members_view(raw@) =~= seq![("_raw"@, JsonView::Str(t))]);
                    }
                    Json::Object(raw)
                } else {
                    Json::Object(Vec::new())
                },
            },
        };
        proof {
            assert(members_view(Seq::<(String, Json)>::empty()) =~= Seq::<(Seq<char>, JsonView)>::empty());
            assert(arguments_json@ == final_arguments(arguments_view, value_view));
        }
        let ghost av = arguments_json@;
        let ghost idv = id@;
        let ghost namev = name@;
        let members = vec![
            ("arguments".to_string(), arguments_json),
            ("id".to_string(), Json::String(id)),
            ("name".to_string(), Json::String(name)),
        ];
        proof {
            crate::json::lemma_members_view(members@);
            assert(members_view(members@) =~= seq![
                ("arguments"@, av),
                ("id"@, JsonView::Str(idv)),
                ("name"@, JsonView::Str(namev)),
            ]);
        }
        items.push(Json::Object(members));
        i = i + 1;
    }
    let usage_json = match usage {
        Some(u) => u,
        None => Json::Null,
    };
    proof {
        crate::json::lemma_items_view(items@);
        assert forall|j: int| 0 <= j < items@.len() implies #[trigger] items_view(items@)[j] == call_view(
            d.tool_calls@[j],
            dec[j],
        ) by {
            assert(items_view(items@)[j] == items@[j]@);
        }
        assert(items_view(items@) =~= Seq::new(
            d.tool_calls@.len(),
            |i: int| call_view(d.tool_calls@[i], dec[i]),
        ));
        assert(members_view(Seq::<(String, Json)>::empty()) =~= Seq::<(Seq<char>, JsonView)>::empty());
    }
    let members = vec![
        ("extras".to_string(), Json::Object(Vec::new())),
        ("finish_reason".to_string(), opt_json(finish_reason)),
        ("reasoning".to_string(), opt_json(reasoning)),
        ("text".to_string(), opt_json(text)),
        ("tool_calls".to_string(), Json::Array(items)),
        ("usage".to_string(), usage_json),
    ];
    proof {
        crate::json::lemma_members_view(members@);
        assert(members_view(members@) =~= reply_view(d, dec)->Object_0);
    }
    Json::Object(members)
}

/// Parts joined with nothing between them.
pub open spec fn joined(parts: Seq<Seq<char>>) -> Seq<char>
    decreases parts.len(),
{
    if parts.len() == 0 {
        Seq::empty()
    } else {
        joined(parts.drop_last()) + parts.last()
    }
}

/// Joined parts, or nothing when there are no parts.
pub open spec fn joined_or_none(parts: Seq<Seq<char>>) -> Option<Seq<char>> {
    if parts.len() == 0 {
        None
    } else {
        Some(joined(parts))
    }
}

pub open spec fn or_empty(o: Option<Seq<char>>) -> Seq<char> {
    match o {
        Some(s) => s,
        None => Seq::empty(),
    }
}

/// `value.get(key)`, or null.
pub open spec fn member_or_null(v: JsonView, key: Seq<char>) -> JsonView {
    match v.get(key) {
        Some(x) => x,
        None => JsonView::Null,
    }
}

/// Parts collected while reading: pushed one after another, joined at the
/// end.
pub struct Parts {
    parts: Vec<String>,
}

impl Parts {
    pub closed spec fn view(&self) -> Seq<Seq<char>> {
        names(self.parts@)
    }

    pub fn new() -> (p: Self)
        ensures
            p.view() == Seq::<Seq<char>>::empty(),
    {
        let p = Parts { parts: Vec::new() };
        assert(p.view() =~= Seq::<Seq<char>>::empty());
        p
    }

    pub fn push(&mut self, s: String)
        ensures
            final(self).view() == old(self).view().push(s@),
    {
        proof {
            crate::text::lemma_names_push(self.parts@, s);
        }
        self.parts.push(s);
    }

    pub fn joined(&self) -> (r: Option<String>)
        ensures
            opt_text(r) == joined_or_none(self.view()),
    {
        if self.parts.len() == 0 {
            return None;
        }
        let mut out = String::new();
        let mut i: usize = 0;
        while i < self.parts.len()
            invariant
                i <= self.parts.len(),
                out@ == joined(names(self.parts@).subrange(0, i as int)),
            decreases self.parts.len() - i,
        {
            proof {
                assert(names(self.parts@).subrange(0, i + 1).drop_last() =~= names(self.parts@).subrange(0, i as int));
            }
            out.append(self.parts[i].as_str());
            i = i + 1;
        }
        proof {
            assert(names(self.parts@).subrange(0, i as int) =~= names(self.parts@));
        }
        Some(out)
    }
}

// -- Chat Completions ---------------------------------------------------------

/// The first choice of a Chat Completions reply and its message, or why
/// the reply is unusable.
pub open spec fn chat_choice(resp: JsonView) -> Result<(JsonView, JsonView), Seq<char>> {
    match resp.get("choices"@) {
        Some(JsonView::Array(choices)) => if choices.len() == 0 {
            Err("empty choices"@)
        } else {
            match choices[0].get("message"@) {
                Some(message) => Ok((choices[0], message)),
                None => Err("missing message"@),
            }
        },
        _ => Err("missing choices"@),
    }
}

/// The reasoning of a Chat Completions message: `reasoning_content` when
/// present, else `reasoning`.
pub open spec fn chat_reasoning(message: JsonView) -> Option<Seq<char>> {
    match message.get("reasoning_content"@) {
        Some(v) => v.as_str(),
        None => message.str_field("reasoning"@),
    }
}

/// A Chat Completions tool call, as drafted: its arguments are JSON text
/// (`{}` when absent) that becomes `{}` when it does not decode.
pub open spec fn is_chat_call(call: JsonView, d: ToolCallDraft) -> bool {
    let function = member_or_null(call, "function"@);
    &&& d.id@ == or_empty(call.str_field("id"@))
    &&& d.name@ == or_empty(function.str_field("name"@))
    &&& d.arguments matches ArgumentsDraft::Text { text, keep_raw } && !keep_raw && text@ == match function.str_field(
        "arguments"@,
    ) {
        Some(a) => a,
        None => "{}"@,
    }
}

fn str_or_empty(o: Option<&str>) -> (r: String)
    ensures
        r@ == or_empty(match o {
            Some(s) => Some(s@),
            None => None,
        }),
{
    match o {
        Some(s) => owned(s),
        None => String::new(),
    }
}

fn str_opt(o: Option<&str>) -> (r: Option<String>)
    ensures
        opt_text(r) == match o {
            Some(s) => Some(s@),
            None => None,
        },
{
    match o {
        Some(s) => Some(owned(s)),
        None => None,
    }
}

/// Read a Chat Completions reply body.
pub fn parse_openai_chat(resp: &Json) -> (r: Result<ReplyDraft, String>)
    ensures
        match chat_choice(resp@) {
            Err(e) => r matches Err(x) && x@ == e,
            Ok((choice, message)) => r matches Ok(d) && {
                &&& opt_text(d.text) == message.str_field("content"@)
                &&& opt_text(d.finish_reason) == choice.str_field("finish_reason"@)
                &&& opt_text(d.reasoning) == chat_reasoning(message)
                &&& match message.get("tool_calls"@) {
                    Some(JsonView::Array(calls)) => d.tool_calls@.len() == calls.len() && forall|i: int|
                        0 <= i < calls.len() ==> #[trigger] is_chat_call(calls[i], d.tool_calls@[i]),
                    _ => d.tool_calls@.len() == 0,
                }
                &&& match resp@.get("usage"@) {
                    Some(u) => d.usage matches Some(x) && x@ == usage_view(chat_usage_of(u)),
                    None => d.usage is None,
                }
            },
        },
{
    let choices = match resp.get("choices") {
        Some(Json::Array(choices)) => choices,
        _ => {
            return Err("missing choices".to_string());
        },
    };
    proof {
        crate::json::lemma_items_view(choices@);
    }
    if choices.len() == 0 {
        return Err("empty choices".to_string());
    }
    let choice = &choices[0];
    let message = match choice.get("message") {
        Some(m) => m,
        None => {
            return Err("missing message".to_string());
        },
    };
    let text = str_opt(message.str_field("content"));
    let finish_reason = str_opt(choice.str_field("finish_reason"));
    let reasoning = match message.get("reasoning_content") {
        Some(v) => str_opt(v.as_str()),
        None => str_opt(message.str_field("reasoning")),
    };
    let mut tool_calls: Vec<ToolCallDraft> = Vec::new();
    match message.get("tool_calls") {
        Some(Json::Array(calls)) => {
            proof {
                crate::json::lemma_items_view(calls@);
            }
            let mut i: usize = 0;
            while i < calls.len()
                invariant
                    i <= calls.len(),
                    items_view(calls@).len() == calls@.len(),
                    forall|x: int| 0 <= x < calls@.len() ==> #[trigger] items_view(calls@)[x] == calls@[x]@,
                    tool_calls@.len() == i,
                    forall|x: int| 0 <= x < i ==> #[trigger] is_chat_call(calls@[x]@, tool_calls@[x]),
                decreases calls.len() - i,
            {
                let call = &calls[i];
                let id = str_or_empty(call.str_field("id"));
                let (name, arguments) = match call.get("function") {
                    Some(function) => (
                        str_or_empty(function.str_field("name")),
                        match function.str_field("arguments") {
                            Some(a) => owned(a),
                            None => "{}".to_string(),
                        },
                    ),
                    None => (String::new(), "{}".to_string()),
                };
                tool_calls.push(ToolCallDraft { id, name, arguments: ArgumentsDraft::Text { text: arguments, keep_raw: false } });
                proof {
                    assert(is_chat_call(calls@[i as int]@, tool_calls@[i as int]));
                }
                i = i + 1;
            }
        },
        _ => {},
    }
    let usage = match resp.get("usage") {
        Some(u) => Some(chat_usage(u).to_json()),
        None => None,
    };
    Ok(ReplyDraft { text, reasoning, tool_calls, finish_reason, usage })
}

// -- Anthropic Messages ------------------------------------------------------

/// The text parts of Anthropic content blocks.
pub open spec fn anthropic_texts(blocks: Seq<JsonView>) -> Seq<Seq<char>>
    decreases blocks.len(),
{
    if blocks.len() == 0 {
        Seq::empty()
    } else {
        let rest = anthropic_texts(blocks.drop_last());
        let b = blocks.last();
        if b.str_field("type"@) == Some("text"@) && b.str_field("text"@) is Some {
            rest.push(b.str_field("text"@)->0)
        } else {
            rest
        }
    }
}

/// The reasoning parts of Anthropic content blocks: thinking text, and a
/// marker for each redacted block.
pub open spec fn anthropic_thoughts(blocks: Seq<JsonView>) -> Seq<Seq<char>>
    decreases blocks.len(),
{
    if blocks.len() == 0 {
        Seq::empty()
    } else {
        let rest = anthropic_thoughts(blocks.drop_last());
        let b = blocks.last();
        if b.str_field("type"@) == Some("thinking"@) && b.str_field("thinking"@) is Some {
            rest.push(b.str_field("thinking"@)->0)
        } else if b.str_field("type"@) == Some("redacted_thinking"@) {
            rest.push("[redacted]"@)
        } else {
            rest
        }
    }
}

/// The tool-use blocks among Anthropic content blocks.
pub open spec fn anthropic_tool_blocks(blocks: Seq<JsonView>) -> Seq<JsonView>
    decreases blocks.len(),
{
    if blocks.len() == 0 {
        Seq::empty()
    } else {
        let rest = anthropic_tool_blocks(blocks.drop_last());
        if blocks.last().str_field("type"@) == Some("tool_use"@) {
            rest.push(blocks.last())
        } else {
            rest
        }
    }
}

/// A tool-use block as drafted: its input is already decoded (`{}` when
/// absent).
pub open spec fn is_anthropic_call(block: JsonView, d: ToolCallDraft) -> bool {
    &&& d.id@ == or_empty(block.str_field("id"@))
    &&& d.name@ == or_empty(block.str_field("name"@))
    &&& d.arguments matches ArgumentsDraft::Decoded(v) && v@ == match block.get("input"@) {
        Some(i) => i,
        None => JsonView::Object(Seq::empty()),
    }
}

/// Read an Anthropic Messages reply body.
pub fn parse_anthropic_response(resp: &Json) -> (r: Result<ReplyDraft, String>)
    ensures
        match resp@.get("content"@) {
            Some(JsonView::Array(blocks)) => r matches Ok(d) && {
                &&& opt_text(d.text) == joined_or_none(anthropic_texts(blocks))
                &&& opt_text(d.reasoning) == joined_or_none(anthropic_thoughts(blocks))
                &&& d.tool_calls@.len() == anthropic_tool_blocks(blocks).len()
                &&& forall|i: int|
                    0 <= i < d.tool_calls@.len() ==> #[trigger] is_anthropic_call(
                        anthropic_tool_blocks(blocks)[i],
                        d.tool_calls@[i],
                    )
                &&& opt_text(d.finish_reason) == match resp@.str_field("stop_reason"@) {
                    Some(s) => Some(crate::provider::stop_reason_of(s)),
                    None => None,
                }
                &&& match resp@.get("usage"@) {
                    Some(u) => d.usage matches Some(x) && x@ == usage_view(anthropic_usage_of(u)),
                    None => d.usage is None,
                }
            },
            _ => r matches Err(e) && e@ == "missing content array"@,
        },
{
    let blocks = match resp.get("content") {
        Some(Json::Array(blocks)) => blocks,
        _ => {
            return Err("missing content array".to_string());
        },
    };
    proof {
        crate::json::lemma_items_view(blocks@);
    }
    let ghost bv = items_view(blocks@);
    let mut texts = Parts::new();
    let mut thoughts = Parts::new();
    let mut tool_calls: Vec<ToolCallDraft> = Vec::new();
    let mut i: usize = 0;
    while i < blocks.len()
        invariant
            i <= blocks.len(),
            bv == items_view(blocks@),
            bv.len() == blocks@.len(),
            forall|x: int| 0 <= x < blocks@.len() ==> #[trigger] bv[x] == blocks@[x]@,
            texts.view() == anthropic_texts(bv.subrange(0, i as int)),
            thoughts.view() == anthropic_thoughts(bv.subrange(0, i as int)),
            tool_calls@.len() == anthropic_tool_blocks(bv.subrange(0, i as int)).len(),
            forall|x: int|
                0 <= x < tool_calls@.len() ==> #[trigger] is_anthropic_call(
                    anthropic_tool_blocks(bv.subrange(0, i as int))[x],
                    tool_calls@[x],
                ),
        decreases blocks.len() - i,
    {
        let block = &blocks[i];
        proof {
            let pre = bv.subrange(0, i + 1);
            assert(pre.drop_last() =~= bv.subrange(0, i as int));
            assert(pre.last() == block@);
            reveal_strlit("text");
            reveal_strlit("tool_use");
            reveal_strlit("thinking");
            reveal_strlit("redacted_thinking");
            assert(("tool_use"@)[1] == 'o' && ("thinking"@)[1] == 'h');
            assert("tool_use"@ != "thinking"@);
            assert(("text"@).len() == 4 && ("thinking"@).len() == 8 && ("tool_use"@).len() == 8);
            assert(("redacted_thinking"@).len() == 17);
            assert("text"@ != "thinking"@ && "text"@ != "tool_use"@ && "text"@ != "redacted_thinking"@);
            assert("tool_use"@ != "redacted_thinking"@ && "thinking"@ != "redacted_thinking"@);
        }
        let kind = block.str_field("type");
        let ghost calls_before = tool_calls@;
        let is_text = match kind { Some(k) => crate::text::str_eq(k, "text"), None => false };
        let is_tool = match kind { Some(k) => crate::text::str_eq(k, "tool_use"), None => false };
        let is_thinking = match kind { Some(k) => crate::text::str_eq(k, "thinking"), None => false };
        let is_redacted = match kind { Some(k) => crate::text::str_eq(k, "redacted_thinking"), None => false };
        if is_text {
            match block.str_field("text") {
                Some(t) => texts.push(owned(t)),
                None => {},
            }
        } else if is_tool {
            let id = str_or_empty(block.str_field("id"));
            let name = str_or_empty(block.str_field("name"));
            let input = match block.get("input") {
                Some(v) => v.deep_clone(),
                None => Json::Object(Vec::new()),
            };
            proof {
                assert(members_view(Seq::<(String, Json)>::empty()) =~= Seq::<(Seq<char>, JsonView)>::empty());
            }
            tool_calls.push(ToolCallDraft { id, name, arguments: ArgumentsDraft::Decoded(input) });
        } else if is_thinking {
            match block.str_field("thinking") {
                Some(t) => thoughts.push(owned(t)),
                None => {},
            }
        } else if is_redacted {
            thoughts.push("[redacted]".to_string());
        }
        proof {
            let pre = bv.subrange(0, i + 1);
            assert forall|x: int|
                0 <= x < tool_calls@.len() implies #[trigger] is_anthropic_call(
                    anthropic_tool_blocks(pre)[x],
                    tool_calls@[x],
                ) by {
                if x < calls_before.len() {
                    assert(tool_calls@[x] == calls_before[x]);
                }
            }
        }
        i = i + 1;
    }
    proof {
        assert(bv.subrange(0, i as int) =~= bv);
    }
    let finish_reason = match resp.str_field("stop_reason") {
        Some(s) => Some(crate::provider::map_stop_reason(s)),
        None => None,
    };
    let usage = match resp.get("usage") {
        Some(u) => Some(anthropic_usage_json(u).to_json()),
        None => None,
    };
    Ok(ReplyDraft { text: texts.joined(), reasoning: thoughts.joined(), tool_calls, finish_reason, usage })
}

// -- Responses ---------------------------------------------------------------

/// The `output_text` parts of a message's content.
pub open spec fn output_texts(parts: Seq<JsonView>) -> Seq<Seq<char>>
    decreases parts.len(),
{
    if parts.len() == 0 {
        Seq::empty()
    } else {
        let rest = output_texts(parts.drop_last());
        let p = parts.last();
        if p.str_field("type"@) == Some("output_text"@) && p.str_field("text"@) is Some {
            rest.push(p.str_field("text"@)->0)
        } else {
            rest
        }
    }
}

/// The text of a message item: its content when that is a string, else its
/// `output_text` parts.
pub open spec fn message_texts(item: JsonView) -> Seq<Seq<char>> {
    match item.get("content"@) {
        Some(JsonView::Str(s)) => seq![s],
        Some(JsonView::Array(parts)) => output_texts(parts),
        _ => Seq::empty(),
    }
}

/// The non-empty summary texts of a reasoning item's summary parts (a part
/// is a string, or an object with `text`).
pub open spec fn summary_texts(parts: Seq<JsonView>) -> Seq<Seq<char>>
    decreases parts.len(),
{
    if parts.len() == 0 {
        Seq::empty()
    } else {
        let rest = summary_texts(parts.drop_last());
        let p = parts.last();
        let text = match p.as_str() {
            Some(s) => Some(s),
            None => p.str_field("text"@),
        };
        match text {
            Some(t) => if t.len() > 0 {
                rest.push(t)
            } else {
                rest
            },
            None => rest,
        }
    }
}

pub open spec fn item_is(item: JsonView, kind: Seq<char>) -> bool {
    item.str_field("type"@) == Some(kind)
}

pub open spec fn responses_texts(items: Seq<JsonView>) -> Seq<Seq<char>>
    decreases items.len(),
{
    if items.len() == 0 {
        Seq::empty()
    } else {
        responses_texts(items.drop_last()) + if item_is(items.last(), "message"@) {
            message_texts(items.last())
        } else {
            Seq::empty()
        }
    }
}

pub open spec fn responses_summaries(items: Seq<JsonView>) -> Seq<Seq<char>>
    decreases items.len(),
{
    if items.len() == 0 {
        Seq::empty()
    } else {
        responses_summaries(items.drop_last()) + if item_is(items.last(), "reasoning"@) {
            match items.last().get("summary"@) {
                Some(JsonView::Array(parts)) => summary_texts(parts),
                _ => Seq::empty(),
            }
        } else {
            Seq::empty()
        }
    }
}

pub open spec fn responses_calls(items: Seq<JsonView>) -> Seq<JsonView>
    decreases items.len(),
{
    if items.len() == 0 {
        Seq::empty()
    } else {
        let rest = responses_calls(items.drop_last());
        if item_is(items.last(), "function_call"@) {
            rest.push(items.last())
        } else {
            rest
        }
    }
}

/// A function-call item as drafted: its id is `call_id` when present, else
/// `id`; its arguments are kept as given (`{}` when absent).
pub open spec fn is_responses_call(item: JsonView, d: ToolCallDraft) -> bool {
    &&& d.id@ == or_empty(
        match item.get("call_id"@) {
            Some(v) => v.as_str(),
            None => item.str_field("id"@),
        },
    )
    &&& d.name@ == or_empty(item.str_field("name"@))
    &&& d.arguments matches ArgumentsDraft::Decoded(v) && v@ == match item.get("arguments"@) {
        Some(a) => a,
        None => JsonView::Object(Seq::empty()),
    }
}

/// The output items of a Responses reply (none when absent).
pub open spec fn responses_items(resp: JsonView) -> Seq<JsonView> {
    match resp.get("output"@) {
        Some(JsonView::Array(items)) => items,
        _ => Seq::empty(),
    }
}

/// How a Responses reply finished: with tool calls, cut at the output
/// limit, or stopped.
pub open spec fn responses_finish(resp: JsonView, has_calls: bool) -> Seq<char> {
    if has_calls {
        "tool_calls"@
    } else if nested(resp, "incomplete_details"@, "reason"@) matches Some(r) && r.as_str() == Some(
        "max_output_tokens"@,
    ) {
        "length"@
    } else {
        "stop"@
    }
}

fn is_kind(item: &Json, kind: &str) -> (r: bool)
    ensures
        r == item_is(item@, kind@),
{
    match item.str_field("type") {
        Some(k) => crate::text::str_eq(k, kind),
        None => false,
    }
}

/// `d` is the draft of the Responses reply body `resp`.
pub open spec fn responses_reply(resp: JsonView, d: ReplyDraft) -> bool {
    let items = responses_items(resp);
    &&& opt_text(d.text) == joined_or_none(responses_texts(items))
    &&& opt_text(d.reasoning) == joined_or_none(responses_summaries(items))
    &&& d.tool_calls@.len() == responses_calls(items).len()
    &&& forall|i: int|
        0 <= i < d.tool_calls@.len() ==> #[trigger] is_responses_call(responses_calls(items)[i], d.tool_calls@[i])
    &&& opt_text(d.finish_reason) == Some(responses_finish(resp, responses_calls(items).len() > 0))
    &&& match resp.get("usage"@) {
        Some(u) => d.usage matches Some(x) && x@ == usage_view(responses_usage_of(u)),
        None => d.usage is None,
    }
}

/// Read a Responses reply body; it always yields a reply.
pub fn parse_openai_responses(resp: &Json) -> (r: Result<ReplyDraft, String>)
    ensures
        r matches Ok(d) && responses_reply(resp@, d),
{
    let empty: Vec<Json> = Vec::new();
    let items = match resp.get("output") {
        Some(Json::Array(items)) => items,
        _ => &empty,
    };
    proof {
        crate::json::lemma_items_view(items@);
        assert(items_view(empty@) =~= Seq::<JsonView>::empty());
    }
    let ghost iv = items_view(items@);
    let mut texts = Parts::new();
    let mut summaries = Parts::new();
    let mut tool_calls: Vec<ToolCallDraft> = Vec::new();
    let mut i: usize = 0;
    while i < items.len()
        invariant
            i <= items.len(),
            iv == items_view(items@),
            iv.len() == items@.len(),
            iv == responses_items(resp@),
            forall|x: int| 0 <= x < items@.len() ==> #[trigger] iv[x] == items@[x]@,
            texts.view() == responses_texts(iv.subrange(0, i as int)),
            summaries.view() == responses_summaries(iv.subrange(0, i as int)),
            tool_calls@.len() == responses_calls(iv.subrange(0, i as int)).len(),
            forall|x: int|
                0 <= x < tool_calls@.len() ==> #[trigger] is_responses_call(
                    responses_calls(iv.subrange(0, i as int))[x],
                    tool_calls@[x],
                ),
        decreases items.len() - i,
    {
        let item = &items[i];
        let ghost pre = iv.subrange(0, i + 1);
        proof {
            assert(pre.drop_last() =~= iv.subrange(0, i as int));
            assert(pre.last() == item@);
            reveal_strlit("message");
            reveal_strlit("reasoning");
            reveal_strlit("function_call");
            assert(("message"@).len() == 7 && ("reasoning"@).len() == 9 && ("function_call"@).len() == 13);
        }
        let ghost texts_before = texts.view();
        let ghost summaries_before = summaries.view();
        let ghost calls_before = tool_calls@;
        if is_kind(item, "message") {
            match item.get("content") {
                Some(Json::String(s)) => {
                    texts.push(s.clone());
                    proof {
                        assert(texts.view() =~= texts_before + seq![s@]);
                    }
                },
                Some(Json::Array(parts)) => {
                    proof {
                        crate::json::lemma_items_view(parts@);
                    }
                    let ghost pv = items_view(parts@);
                    let mut k: usize = 0;
                    while k < parts.len()
                        invariant
                            k <= parts.len(),
                            pv == items_view(parts@),
                            pv.len() == parts@.len(),
                            forall|x: int| 0 <= x < parts@.len() ==> #[trigger] pv[x] == parts@[x]@,
                            texts.view() == texts_before + output_texts(pv.subrange(0, k as int)),
                        decreases parts.len() - k,
                    {
                        let part = &parts[k];
                        proof {
                            let pp = pv.subrange(0, k + 1);
                            assert(pp.drop_last() =~= pv.subrange(0, k as int));
                            assert(pp.last() == part@);
                        }
                        let ghost tb = texts.view();
                        if is_kind(part, "output_text") {
                            match part.str_field("text") {
                                Some(t) => {
                                    texts.push(owned(t));
                                    proof {
                                        assert(texts.view() =~= texts_before + output_texts(pv.subrange(0, k + 1)));
                                    }
                                },
                                None => {},
                            }
                        }
                        k = k + 1;
                    }
                    proof {
                        assert(pv.subrange(0, k as int) =~= pv);
                    }
                },
                _ => {
                    proof {
                        assert(texts.view() =~= texts_before + Seq::<Seq<char>>::empty());
                    }
                },
            }
            proof {
                assert(summaries.view() =~= summaries_before + Seq::<Seq<char>>::empty());
            }
        } else if is_kind(item, "reasoning") {
            match item.get("summary") {
                Some(Json::Array(parts)) => {
                    proof {
                        crate::json::lemma_items_view(parts@);
                    }
                    let ghost pv = items_view(parts@);
                    let mut k: usize = 0;
                    while k < parts.len()
                        invariant
                            k <= parts.len(),
                            pv == items_view(parts@),
                            pv.len() == parts@.len(),
                            forall|x: int| 0 <= x < parts@.len() ==> #[trigger] pv[x] == parts@[x]@,
                            summaries.view() == summaries_before + summary_texts(pv.subrange(0, k as int)),
                        decreases parts.len() - k,
                    {
                        let part = &parts[k];
                        proof {
                            let pp = pv.subrange(0, k + 1);
                            assert(pp.drop_last() =~= pv.subrange(0, k as int));
                            assert(pp.last() == part@);
                        }
                        let text = match part.as_str() {
                            Some(s) => Some(s),
                            None => part.str_field("text"),
                        };
                        match text {
                            Some(t) => {
                                if !t.is_empty() {
                                    summaries.push(owned(t));
                                    proof {
                                        assert(summaries.view() =~= summaries_before + summary_texts(
                                            pv.subrange(0, k + 1),
                                        ));
                                    }
                                }
                            },
                            None => {},
                        }
                        k = k + 1;
                    }
                    proof {
                        assert(pv.subrange(0, k as int) =~= pv);
                    }
                },
                _ => {
                    proof {
                        assert(summaries.view() =~= summaries_before + Seq::<Seq<char>>::empty());
                    }
                },
            }
            proof {
                assert(texts.view() =~= texts_before + Seq::<Seq<char>>::empty());
            }
        } else {
            if is_kind(item, "function_call") {
                let id = match item.get("call_id") {
                    Some(v) => str_or_empty(v.as_str()),
                    None => str_or_empty(item.str_field("id")),
                };
                let name = str_or_empty(item.str_field("name"));
                let arguments = match item.get("arguments") {
                    Some(v) => v.deep_clone(),
                    None => Json::Object(Vec::new()),
                };
                proof {
                    assert(members_view(Seq::<(String, Json)>::empty()) =~= Seq::<(Seq<char>, JsonView)>::empty());
                }
                tool_calls.push(ToolCallDraft { id, name, arguments: ArgumentsDraft::Decoded(arguments) });
            }
            proof {
                assert(texts.view() =~= texts_before + Seq::<Seq<char>>::empty());
                assert(summaries.view() =~= summaries_before + Seq::<Seq<char>>::empty());
            }
        }
        proof {
            assert forall|x: int|
                0 <= x < tool_calls@.len() implies #[trigger] is_responses_call(
                    responses_calls(pre)[x],
                    tool_calls@[x],
                ) by {
                if x < calls_before.len() {
                    assert(tool_calls@[x] == calls_before[x]);
                }
            }
        }
        i = i + 1;
    }
    proof {
        assert(iv.subrange(0, i as int) =~= iv);
    }
    let has_calls = tool_calls.len() > 0;
    let length_cut = match resp.get("incomplete_details") {
        Some(d) => match d.get("reason") {
            Some(reason) => match reason.as_str() {
                Some(s) => crate::text::str_eq(s, "max_output_tokens"),
                None => false,
            },
            None => false,
        },
        None => false,
    };
    let finish = if has_calls {
        "tool_calls".to_string()
    } else if length_cut {
        "length".to_string()
    } else {
        "stop".to_string()
    };
    let usage = match resp.get("usage") {
        Some(u) => Some(responses_usage(u).to_json()),
        None => None,
    };
    Ok(ReplyDraft {
        text: texts.joined(),
        reasoning: summaries.joined(),
        tool_calls,
        finish_reason: Some(finish),
        usage,
    })
}

} // verus!
