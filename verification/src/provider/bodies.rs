//! Request bodies for the three provider protocols.
//!
//! A body is a JSON object whose keys ascend, as serde_json's default map
//! keeps them. Each builder states, key by key, what the body holds: the
//! protocol's own fields, then the request's `settings` members laid over
//! them (a later member wins over an earlier one with the same key).

use vstd::prelude::*;

use crate::binary64::Binary64;
use crate::json::{items_view, lookup, members_view, object_from_map, Json, JsonNumber, JsonView, NumberView};
use crate::strmap::{ascending, find, StrMap};
use crate::text::owned;

verus! {

/// What one provider call is asked to do.
#[derive(Debug)]
pub struct ProviderRequest {
    pub protocol: String,
    pub model: String,
    pub messages: Json,
    pub tools: Option<Json>,
    pub settings: Option<Json>,
    pub api_key: String,
    pub base_url: String,
    pub timeout_secs: Option<Binary64>,
}

/// The value of the last member named `key`.
pub open spec fn lookup_last(members: Seq<(Seq<char>, JsonView)>, key: Seq<char>) -> Option<JsonView>
    decreases members.len(),
{
    if members.len() == 0 {
        None
    } else if members.last().0 == key {
        Some(members.last().1)
    } else {
        lookup_last(members.drop_last(), key)
    }
}

/// A body field after the request's settings are laid over `base`: the
/// settings' last member named `key` when settings is an object that has
/// one, `base` otherwise.
pub open spec fn overlaid(settings: Option<Json>, key: Seq<char>, base: Option<JsonView>) -> Option<JsonView> {
    match settings {
        Some(s) => match s@ {
            JsonView::Object(members) => match lookup_last(members, key) {
                Some(v) => Some(v),
                None => base,
            },
            _ => base,
        },
        None => base,
    }
}

/// The view of the value a string-keyed map stores under `key`.
pub open spec fn field_of(m: Seq<(Seq<char>, Json)>, key: Seq<char>) -> Option<JsonView> {
    match find(m, key) {
        Some(v) => Some(v@),
        None => None,
    }
}

/// A value, or `null` in its place.
pub open spec fn or_null(v: Option<JsonView>) -> JsonView {
    match v {
        Some(x) => x,
        None => JsonView::Null,
    }
}

/// `{"type": "object"}`.
pub open spec fn object_schema() -> JsonView {
    JsonView::Object(seq![("type"@, JsonView::Str("object"@))])
}

/// The `function` members of the tool declarations, in order; a
/// declaration without one is skipped.
pub open spec fn functions_of(items: Seq<JsonView>) -> Seq<JsonView>
    decreases items.len(),
{
    if items.len() == 0 {
        Seq::empty()
    } else {
        let rest = functions_of(items.drop_last());
        match items.last().get("function"@) {
            Some(f) => rest.push(f),
            None => rest,
        }
    }
}

/// The functions declared by `tools`; none when `tools` is not an array.
pub open spec fn tool_functions(tools: JsonView) -> Seq<JsonView> {
    match tools {
        JsonView::Array(items) => functions_of(items),
        _ => Seq::empty(),
    }
}

/// A function declared in the Responses API's tool shape.
pub open spec fn responses_tool(f: JsonView) -> JsonView {
    JsonView::Object(
        seq![
            ("description"@, or_null(f.get("description"@))),
            ("name"@, or_null(f.get("name"@))),
            ("parameters"@, match f.get("parameters"@) {
                Some(p) => p,
                None => object_schema(),
            }),
            ("strict"@, JsonView::Bool(false)),
            ("type"@, JsonView::Str("function"@)),
        ],
    )
}

/// A function declared in the Messages API's tool shape.
pub open spec fn anthropic_tool(f: JsonView) -> JsonView {
    JsonView::Object(
        seq![
            ("description"@, or_null(f.get("description"@))),
            ("input_schema"@, match f.get("parameters"@) {
                Some(p) => p,
                None => object_schema(),
            }),
            ("name"@, or_null(f.get("name"@))),
        ],
    )
}

/// The members of a body object, when it is one whose keys ascend.
pub open spec fn body_members(body: JsonView) -> Seq<(Seq<char>, JsonView)> {
    match body {
        JsonView::Object(m) => m,
        _ => Seq::empty(),
    }
}

/// `body` is an object whose keys ascend.
pub open spec fn sorted_object(body: JsonView) -> bool {
    body is Object && ascending(body_members(body))
}

// -- Chat Completions ---------------------------------------------------------

/// A Chat Completions body field before settings: the tools as given,
/// streaming options when streaming, the messages as given and the model.
pub open spec fn chat_base(req: ProviderRequest, stream: bool, key: Seq<char>) -> Option<JsonView> {
    if req.tools is Some && key == "tools"@ {
        Some(req.tools.unwrap()@)
    } else if stream && key == "stream_options"@ {
        Some(JsonView::Object(seq![("include_usage"@, JsonView::Bool(true))]))
    } else if stream && key == "stream"@ {
        Some(JsonView::Bool(true))
    } else if key == "messages"@ {
        Some(req.messages@)
    } else if key == "model"@ {
        Some(JsonView::Str(req.model@))
    } else {
        None
    }
}

pub open spec fn chat_field(req: ProviderRequest, stream: bool, key: Seq<char>) -> Option<JsonView> {
    overlaid(req.settings, key, chat_base(req, stream, key))
}

// -- Responses ------------------------------------------------------------------

/// A Responses body field before settings.
pub open spec fn responses_base(req: ProviderRequest, stream: bool, key: Seq<char>) -> Option<JsonView> {
    if req.tools is Some && key == "tools"@ {
        Some(JsonView::Array(tool_functions(req.tools.unwrap()@).map_values(|f: JsonView| responses_tool(f))))
    } else if stream && key == "stream"@ {
        Some(JsonView::Bool(true))
    } else if key == "reasoning"@ {
        Some(JsonView::Object(seq![("summary"@, JsonView::Str("auto"@))]))
    } else if key == "include"@ {
        Some(JsonView::Array(seq![JsonView::Str("reasoning.encrypted_content"@)]))
    } else if key == "store"@ {
        Some(JsonView::Bool(false))
    } else if key == "input"@ {
        Some(req.messages@)
    } else if key == "model"@ {
        Some(JsonView::Str(req.model@))
    } else {
        None
    }
}

pub open spec fn responses_field(req: ProviderRequest, stream: bool, key: Seq<char>) -> Option<JsonView> {
    overlaid(req.settings, key, responses_base(req, stream, key))
}

/// Lay the settings' members over the body, one after another.
fn overlay_settings(body: &mut StrMap<Json>, settings: &Option<Json>)
    ensures
        forall|k: Seq<char>|
            #![trigger field_of(final(body)@, k)]
            field_of(final(body)@, k) == overlaid(*settings, k, field_of(old(body)@, k)),
{
    match settings {
        Some(Json::Object(members)) => {
            let ghost start = body@;
            let ghost mv = members_view(members@);
            proof {
                crate::json::lemma_members_view(members@);
            }
            let mut i: usize = 0;
            while i < members.len()
                invariant
                    i <= members.len(),
                    mv == members_view(members@),
                    mv.len() == members@.len(),
                    forall|x: int| 0 <= x < members@.len() ==> #[trigger] mv[x] == (members@[x].0@, members@[x].1@),
                    forall|k: Seq<char>|
                        #![trigger field_of(body@, k)]
                        field_of(body@, k) == match lookup_last(mv.subrange(0, i as int), k) {
                            Some(v) => Some(v),
                            None => field_of(start, k),
                        },
                decreases members.len() - i,
            {
                let ghost before = body@;
                let key = members[i].0.clone();
                let value = members[i].1.deep_clone();
                body.insert(key, value);
                proof {
                    assert(mv.subrange(0, i + 1).drop_last() =~= mv.subrange(0, i as int));
                    assert forall|k: Seq<char>| #![trigger field_of(body@, k)]
                        field_of(body@, k) == match lookup_last(mv.subrange(0, i + 1), k) {
                            Some(v) => Some(v),
                            None => field_of(start, k),
                        } by {
                        assert(field_of(before, k) == field_of(before, k));
                    }
                }
                i = i + 1;
            }
            proof {
                assert(mv.subrange(0, members@.len() as int) =~= mv);
            }
        },
        _ => {},
    }
}

/// Turn the finished field map into the body object.
fn into_body(m: StrMap<Json>) -> (body: Json)
    ensures
        sorted_object(body@),
        forall|k: Seq<char>| #![trigger lookup(body_members(body@), k)]
            lookup(body_members(body@), k) == field_of(m@, k),
{
    let ghost mv = m@;
    let body = object_from_map(m);
    proof {
        assert forall|k: Seq<char>| #![trigger lookup(body_members(body@), k)]
            lookup(body_members(body@), k) == field_of(mv, k) by {
            crate::json::lemma_map_members_lookup(mv, k);
        }
    }
    body
}

fn key(s: &str) -> (r: String)
    ensures
        r@ == s@,
{
    owned(s)
}

/// The Chat Completions request body.
pub fn build_openai_chat(req: &ProviderRequest, should_stream: bool) -> (body: Json)
    ensures
        sorted_object(body@),
        forall|k: Seq<char>| #![trigger lookup(body_members(body@), k)]
            lookup(body_members(body@), k) == chat_field(*req, should_stream, k),
{
    let mut m: StrMap<Json> = StrMap::new();
    m.insert(key("model"), Json::String(req.model.clone()));
    m.insert(key("messages"), req.messages.deep_clone());
    if should_stream {
        m.insert(key("stream"), Json::Bool(true));
        let options = vec![(key("include_usage"), Json::Bool(true))];
        proof {
            crate::json::lemma_members_view(options@);
            assert(members_view(options@) =~= seq![("include_usage"@, JsonView::Bool(true))]);
        }
        m.insert(key("stream_options"), Json::Object(options));
    }
    match &req.tools {
        Some(tools) => {
            m.insert(key("tools"), tools.deep_clone());
        },
        None => {},
    }
    let ghost before = m@;
    overlay_settings(&mut m, &req.settings);
    let body = into_body(m);
    proof {
        assert forall|k: Seq<char>| #![trigger lookup(body_members(body@), k)]
            lookup(body_members(body@), k) == chat_field(*req, should_stream, k) by {
            assert(field_of(before, k) == chat_base(*req, should_stream, k));
        }
    }
    body
}

/// One function, in the Responses tool shape.
fn responses_tool_of(f: &Json) -> (r: Json)
    ensures
        r@ == responses_tool(f@),
{
    let description = match f.get("description") {
        Some(v) => v.deep_clone(),
        None => Json::Null,
    };
    let name = match f.get("name") {
        Some(v) => v.deep_clone(),
        None => Json::Null,
    };
    let parameters = match f.get("parameters") {
        Some(v) => v.deep_clone(),
        None => type_object(),
    };
    let members = vec![
        (key("description"), description),
        (key("name"), name),
        (key("parameters"), parameters),
        (key("strict"), Json::Bool(false)),
        (key("type"), Json::String(key("function"))),
    ];
    proof {
        crate::json::lemma_members_view(members@);
        assert(members_view(members@) =~= seq![
            ("description"@, or_null(f@.get("description"@))),
            ("name"@, or_null(f@.get("name"@))),
            ("parameters"@, match f@.get("parameters"@) {
                Some(p) => p,
                None => object_schema(),
            }),
            ("strict"@, JsonView::Bool(false)),
            ("type"@, JsonView::Str("function"@)),
        ]);
    }
    Json::Object(members)
}

/// One function, in the Messages tool shape.
fn anthropic_tool_of(f: &Json) -> (r: Json)
    ensures
        r@ == anthropic_tool(f@),
{
    let description = match f.get("description") {
        Some(v) => v.deep_clone(),
        None => Json::Null,
    };
    let schema = match f.get("parameters") {
        Some(v) => v.deep_clone(),
        None => type_object(),
    };
    let name = match f.get("name") {
        Some(v) => v.deep_clone(),
        None => Json::Null,
    };
    let members = vec![
        (key("description"), description),
        (key("input_schema"), schema),
        (key("name"), name),
    ];
    proof {
        crate::json::lemma_members_view(members@);
        assert(members_view(members@) =~= seq![
            ("description"@, or_null(f@.get("description"@))),
            ("input_schema"@, match f@.get("parameters"@) {
                Some(p) => p,
                None => object_schema(),
            }),
            ("name"@, or_null(f@.get("name"@))),
        ]);
    }
    Json::Object(members)
}

fn type_object() -> (r: Json)
    ensures
        r@ == object_schema(),
{
    let members = vec![(key("type"), Json::String(key("object")))];
    proof {
        crate::json::lemma_members_view(members@);
        assert(members_view(members@) =~= seq![("type"@, JsonView::Str("object"@))]);
    }
    Json::Object(members)
}

/// The declared functions of `tools` in one of the two tool shapes.
fn tool_declarations(tools: &Json, anthropic: bool) -> (r: Json)
    ensures
        anthropic ==> r@ == JsonView::Array(tool_functions(tools@).map_values(|f: JsonView| anthropic_tool(f))),
        !anthropic ==> r@ == JsonView::Array(tool_functions(tools@).map_values(|f: JsonView| responses_tool(f))),
{
    let mut out: Vec<Json> = Vec::new();
    match tools {
        Json::Array(items) => {
            proof {
                crate::json::lemma_items_view(items@);
            }
            let ghost iv = items_view(items@);
            let mut i: usize = 0;
            while i < items.len()
                invariant
                    i <= items.len(),
                    iv == items_view(items@),
                    iv.len() == items@.len(),
                    forall|x: int| 0 <= x < items@.len() ==> #[trigger] iv[x] == items@[x]@,
                    out@.len() == functions_of(iv.subrange(0, i as int)).len(),
                    forall|x: int| 0 <= x < out@.len() ==> #[trigger] out@[x]@ == if anthropic {
                        anthropic_tool(functions_of(iv.subrange(0, i as int))[x])
                    } else {
                        responses_tool(functions_of(iv.subrange(0, i as int))[x])
                    },
                decreases items.len() - i,
            {
                proof {
                    assert(iv.subrange(0, i + 1).drop_last() =~= iv.subrange(0, i as int));
                    assert(iv.subrange(0, i + 1).last() == iv[i as int]);
                }
                match items[i].get("function") {
                    Some(f) => {
                        let t = if anthropic {
                            anthropic_tool_of(f)
                        } else {
                            responses_tool_of(f)
                        };
                        out.push(t);
                    },
                    None => {},
                }
                i = i + 1;
            }
            proof {
                assert(iv.subrange(0, items@.len() as int) =~= iv);
                assert(tools@ == JsonView::Array(iv));
                crate::json::lemma_items_view(out@);
                let fs = functions_of(iv);
                assert(out@.len() == fs.len());
                assert forall|x: int| 0 <= x < out@.len() implies #[trigger] items_view(out@)[x] == if anthropic {
                    anthropic_tool(fs[x])
                } else {
                    responses_tool(fs[x])
                } by {
                    assert(items_view(out@)[x] == out@[x]@);
                }
                if anthropic {
                    assert(items_view(out@) =~= functions_of(iv).map_values(|f: JsonView| anthropic_tool(f)));
                } else {
                    assert(items_view(out@) =~= functions_of(iv).map_values(|f: JsonView| responses_tool(f)));
                }
            }
            Json::Array(out)
        },
        _ => {
            proof {
                crate::json::lemma_items_view(out@);
                assert(items_view(out@) =~= Seq::<JsonView>::empty());
                assert(tool_functions(tools@).map_values(|f: JsonView| anthropic_tool(f)) =~= Seq::<JsonView>::empty());
                assert(tool_functions(tools@).map_values(|f: JsonView| responses_tool(f)) =~= Seq::<JsonView>::empty());
            }
            Json::Array(out)
        },
    }
}

/// The Responses request body.
pub fn build_openai_responses(req: &ProviderRequest, should_stream: bool) -> (body: Json)
    ensures
        sorted_object(body@),
        forall|k: Seq<char>| #![trigger lookup(body_members(body@), k)]
            lookup(body_members(body@), k) == responses_field(*req, should_stream, k),
{
    let mut m: StrMap<Json> = StrMap::new();
    m.insert(key("model"), Json::String(req.model.clone()));
    m.insert(key("input"), req.messages.deep_clone());
    m.insert(key("store"), Json::Bool(false));
    let encrypted = vec![Json::String(key("reasoning.encrypted_content"))];
    proof {
        crate::json::lemma_items_view(encrypted@);
        assert(items_view(encrypted@) =~= seq![JsonView::Str("reasoning.encrypted_content"@)]);
    }
    m.insert(key("include"), Json::Array(encrypted));
    let summary = vec![(key("summary"), Json::String(key("auto")))];
    proof {
        crate::json::lemma_members_view(summary@);
        assert(members_view(summary@) =~= seq![("summary"@, JsonView::Str("auto"@))]);
    }
    m.insert(key("reasoning"), Json::Object(summary));
    if should_stream {
        m.insert(key("stream"), Json::Bool(true));
    }
    match &req.tools {
        Some(tools) => {
            m.insert(key("tools"), tool_declarations(tools, false));
        },
        None => {},
    }
    let ghost before = m@;
    overlay_settings(&mut m, &req.settings);
    let body = into_body(m);
    proof {
        assert forall|k: Seq<char>| #![trigger lookup(body_members(body@), k)]
            lookup(body_members(body@), k) == responses_field(*req, should_stream, k) by {
            assert(field_of(before, k) == responses_base(*req, should_stream, k));
        }
    }
    body
}

// -- Messages (Anthropic) -------------------------------------------------------

/// The messages of a request; none when `messages` is not an array.
pub open spec fn message_list(messages: JsonView) -> Seq<JsonView> {
    match messages {
        JsonView::Array(a) => a,
        _ => Seq::empty(),
    }
}

pub open spec fn role_is(m: JsonView, role: Seq<char>) -> bool {
    m.str_field("role"@) == Some(role)
}

/// The `tool_calls` array of a message; none when it has no such array.
pub open spec fn call_list(m: JsonView) -> Seq<JsonView> {
    match m.get("tool_calls"@) {
        Some(JsonView::Array(c)) => c,
        _ => Seq::empty(),
    }
}

/// An assistant message that calls at least one tool.
pub open spec fn carries_calls(m: JsonView) -> bool {
    role_is(m, "assistant"@) && call_list(m).len() > 0
}

/// A call's `function` member, `null` when it has none.
pub open spec fn call_function(call: JsonView) -> JsonView {
    or_null(call.get("function"@))
}

/// A call's arguments, when they are JSON text.
pub open spec fn call_text(call: JsonView) -> Option<Seq<char>> {
    call_function(call).str_field("arguments"@)
}

/// The argument texts of the calls, in order.
pub open spec fn call_texts(calls: Seq<JsonView>) -> Seq<Seq<char>>
    decreases calls.len(),
{
    if calls.len() == 0 {
        Seq::empty()
    } else {
        let rest = call_texts(calls.drop_last());
        match call_text(calls.last()) {
            Some(t) => rest.push(t),
            None => rest,
        }
    }
}

pub open spec fn message_texts(m: JsonView) -> Seq<Seq<char>> {
    if carries_calls(m) {
        call_texts(call_list(m))
    } else {
        Seq::empty()
    }
}

/// The argument texts of every tool call in the messages, in order: the
/// texts the host decodes before the Messages body is built.
pub open spec fn argument_texts(msgs: Seq<JsonView>) -> Seq<Seq<char>>
    decreases msgs.len(),
{
    if msgs.len() == 0 {
        Seq::empty()
    } else {
        argument_texts(msgs.drop_last()) + message_texts(msgs.last())
    }
}

/// What the `i`-th argument text decoded to, if it decoded.
pub open spec fn decoded_at(decoded: Seq<Option<Json>>, i: int) -> Option<JsonView> {
    if 0 <= i < decoded.len() {
        match decoded[i] {
            Some(v) => Some(v@),
            None => None,
        }
    } else {
        None
    }
}

pub open spec fn empty_object() -> JsonView {
    JsonView::Object(Seq::empty())
}

/// A call's input: its decoded argument text, `{}` when the arguments are
/// not text or the text did not decode.
pub open spec fn call_input(call: JsonView, decoded: Seq<Option<Json>>, at: int) -> JsonView {
    match call_text(call) {
        Some(_) => match decoded_at(decoded, at) {
            Some(v) => v,
            None => empty_object(),
        },
        None => empty_object(),
    }
}

pub open spec fn tool_use_block(call: JsonView, input: JsonView) -> JsonView {
    JsonView::Object(
        seq![
            ("id"@, or_null(call.get("id"@))),
            ("input"@, input),
            ("name"@, or_null(call_function(call).get("name"@))),
            ("type"@, JsonView::Str("tool_use"@)),
        ],
    )
}

/// The `tool_use` blocks of the calls, whose argument texts were decoded
/// from position `base` on.
pub open spec fn tool_use_blocks(calls: Seq<JsonView>, decoded: Seq<Option<Json>>, base: int) -> Seq<JsonView>
    decreases calls.len(),
{
    if calls.len() == 0 {
        Seq::empty()
    } else {
        tool_use_blocks(calls.drop_last(), decoded, base).push(
            tool_use_block(
                calls.last(),
                call_input(calls.last(), decoded, base + call_texts(calls.drop_last()).len()),
            ),
        )
    }
}

/// A text block for a message's non-empty text content.
pub open spec fn text_blocks(m: JsonView) -> Seq<JsonView> {
    match m.str_field("content"@) {
        Some(t) => if t.len() > 0 {
            seq![JsonView::Object(seq![("text"@, JsonView::Str(t)), ("type"@, JsonView::Str("text"@))])]
        } else {
            Seq::empty()
        },
        None => Seq::empty(),
    }
}

/// A tool message's content as text: the string itself, or the JSON text
/// of whatever else it holds.
pub open spec fn tool_result_text(m: JsonView) -> Seq<char> {
    match m.str_field("content"@) {
        Some(t) => t,
        None => crate::json::json_text(or_null(m.get("content"@))),
    }
}

/// A tool message as a user message carrying one `tool_result` block.
pub open spec fn tool_result_message(m: JsonView) -> JsonView {
    JsonView::Object(
        seq![
            ("content"@, JsonView::Array(seq![JsonView::Object(seq![
                ("content"@, JsonView::Str(tool_result_text(m))),
                ("tool_use_id"@, or_null(m.get("tool_call_id"@))),
                ("type"@, JsonView::Str("tool_result"@)),
            ])])),
            ("role"@, JsonView::Str("user"@)),
        ],
    )
}

/// An assistant message that calls tools, as text and `tool_use` blocks.
pub open spec fn calling_message(m: JsonView, decoded: Seq<Option<Json>>, base: int) -> JsonView {
    JsonView::Object(
        seq![
            ("content"@, JsonView::Array(text_blocks(m) + tool_use_blocks(call_list(m), decoded, base))),
            ("role"@, JsonView::Str("assistant"@)),
        ],
    )
}

/// A message in the Messages API's shape; system messages leave the list.
pub open spec fn mapped_message(m: JsonView, decoded: Seq<Option<Json>>, base: int) -> Option<JsonView> {
    if role_is(m, "system"@) {
        None
    } else if role_is(m, "tool"@) {
        Some(tool_result_message(m))
    } else if carries_calls(m) {
        Some(calling_message(m, decoded, base))
    } else {
        Some(m)
    }
}

/// In the Messages body a tool message becomes a user message holding one
/// `tool_result` block whose `tool_use_id` is the message's `tool_call_id`
/// (null when it has none), so the result names the `tool_use` it answers.
pub proof fn law_tool_result_names_the_call_it_answers(
    m: JsonView,
    decoded: Seq<Option<Json>>,
    base: int,
)
    requires
        m.get("role"@) == Some(JsonView::Str("tool"@)),
    ensures
        match mapped_message(m, decoded, base) {
            Some(out) => out.get("role"@) == Some(JsonView::Str("user"@)) && match out.get(
                "content"@,
            ) {
                Some(JsonView::Array(blocks)) => blocks.len() == 1 && blocks[0].get("type"@) == Some(
                    JsonView::Str("tool_result"@),
                ) && blocks[0].get("tool_use_id"@) == Some(
                    match m.get("tool_call_id"@) {
                        Some(id) => id,
                        None => JsonView::Null,
                    },
                ),
                _ => false,
            },
            None => false,
        },
{
    reveal_strlit("system");
    reveal_strlit("tool");
    reveal_strlit("content");
    reveal_strlit("role");
    reveal_strlit("tool_use_id");
    reveal_strlit("type");
    assert("system"@.len() == 6 && "tool"@.len() == 4);
    assert("content"@.len() == 7 && "role"@.len() == 4);
    assert("system"@ != "tool"@);
    assert("content"@ != "role"@);
    assert("content"@ != "tool_use_id"@);
    assert("content"@ != "type"@);
    assert("tool_use_id"@.len() == 11 && "type"@.len() == 4);
    assert("tool_use_id"@ != "type"@);
    let out = tool_result_message(m);
    let ms = seq![
        ("content"@, JsonView::Array(seq![JsonView::Object(seq![
            ("content"@, JsonView::Str(tool_result_text(m))),
            ("tool_use_id"@, or_null(m.get("tool_call_id"@))),
            ("type"@, JsonView::Str("tool_result"@)),
        ])])),
        ("role"@, JsonView::Str("user"@)),
    ];
    assert(ms.drop_first().drop_first() =~= Seq::<(Seq<char>, JsonView)>::empty());
    assert(ms.drop_first()[0] == ("role"@, JsonView::Str("user"@)));
    assert(crate::json::lookup(ms.drop_first(), "role"@) == Some(JsonView::Str("user"@)));
    assert(crate::json::lookup(ms, "role"@) == Some(JsonView::Str("user"@)));
    let bs = seq![
        ("content"@, JsonView::Str(tool_result_text(m))),
        ("tool_use_id"@, or_null(m.get("tool_call_id"@))),
        ("type"@, JsonView::Str("tool_result"@)),
    ];
    assert(bs.drop_first()[0] == ("tool_use_id"@, or_null(m.get("tool_call_id"@))));
    assert(crate::json::lookup(bs.drop_first(), "tool_use_id"@) == Some(
        or_null(m.get("tool_call_id"@)),
    ));
    assert(crate::json::lookup(bs, "tool_use_id"@) == Some(or_null(m.get("tool_call_id"@))));
    assert(bs.drop_first().drop_first()[0] == ("type"@, JsonView::Str("tool_result"@)));
    assert(crate::json::lookup(bs.drop_first().drop_first(), "type"@) == Some(
        JsonView::Str("tool_result"@),
    ));
    assert(crate::json::lookup(bs.drop_first(), "type"@) == Some(JsonView::Str("tool_result"@)));
    assert(crate::json::lookup(bs, "type"@) == Some(JsonView::Str("tool_result"@)));
}

proof fn lemma_tool_use_block_fields(call: JsonView, input: JsonView)
    ensures
        tool_use_block(call, input).get("id"@) == Some(or_null(call.get("id"@))),
        tool_use_block(call, input).get("type"@) == Some(JsonView::Str("tool_use"@)),
{
    reveal_strlit("id");
    reveal_strlit("input");
    reveal_strlit("name");
    reveal_strlit("type");
    assert("id"@.len() == 2 && "input"@.len() == 5 && "type"@.len() == 4);
    assert("name"@[0] != "type"@[0]);
    let ms = seq![
        ("id"@, or_null(call.get("id"@))),
        ("input"@, input),
        ("name"@, or_null(call_function(call).get("name"@))),
        ("type"@, JsonView::Str("tool_use"@)),
    ];
    let rest = ms.drop_first().drop_first().drop_first();
    assert(rest[0] == ("type"@, JsonView::Str("tool_use"@)));
    assert(crate::json::lookup(rest, "type"@) == Some(JsonView::Str("tool_use"@)));
    assert(crate::json::lookup(ms.drop_first().drop_first(), "type"@) == Some(
        JsonView::Str("tool_use"@),
    ));
    assert(crate::json::lookup(ms.drop_first(), "type"@) == Some(JsonView::Str("tool_use"@)));
    assert(crate::json::lookup(ms, "type"@) == Some(JsonView::Str("tool_use"@)));
}

proof fn lemma_tool_use_blocks_ids(calls: Seq<JsonView>, decoded: Seq<Option<Json>>, base: int)
    ensures
        tool_use_blocks(calls, decoded, base).len() == calls.len(),
        forall|k: int|
            0 <= k < calls.len() ==> (#[trigger] tool_use_blocks(calls, decoded, base)[k]).get("id"@)
                == Some(or_null(calls[k].get("id"@))) && tool_use_blocks(calls, decoded, base)[k].get(
                "type"@,
            ) == Some(JsonView::Str("tool_use"@)),
    decreases calls.len(),
{
    if calls.len() > 0 {
        let prev = calls.drop_last();
        lemma_tool_use_blocks_ids(prev, decoded, base);
        let input = call_input(calls.last(), decoded, base + call_texts(prev).len());
        lemma_tool_use_block_fields(calls.last(), input);
        assert forall|k: int| 0 <= k < calls.len() implies (#[trigger] tool_use_blocks(
            calls,
            decoded,
            base,
        )[k]).get("id"@) == Some(or_null(calls[k].get("id"@))) && tool_use_blocks(calls, decoded, base)[k].get(
            "type"@,
        ) == Some(JsonView::Str("tool_use"@)) by {
            if k < prev.len() {
                assert(calls[k] == prev[k]);
                assert(tool_use_blocks(prev, decoded, base)[k].get("id"@) == Some(
                    or_null(prev[k].get("id"@)),
                ));
            }
        }
    }
}

/// In the Messages body an assistant message's `k`-th tool call becomes a
/// `tool_use` block whose `id` is the call's `id` (null when it has none),
/// placed after the message's text block, if any, in call order; a tool
/// result naming that id therefore answers that block.
pub proof fn law_tool_use_blocks_carry_call_ids(
    m: JsonView,
    calls: Seq<JsonView>,
    decoded: Seq<Option<Json>>,
    base: int,
    k: int,
)
    requires
        m.get("role"@) == Some(JsonView::Str("assistant"@)),
        m.get("tool_calls"@) == Some(JsonView::Array(calls)),
        0 <= k < calls.len(),
    ensures
        match mapped_message(m, decoded, base) {
            Some(out) => match out.get("content"@) {
                Some(JsonView::Array(blocks)) => blocks.len() == text_blocks(m).len() + calls.len()
                    && blocks[text_blocks(m).len() + k].get("type"@) == Some(
                    JsonView::Str("tool_use"@),
                ) && blocks[text_blocks(m).len() + k].get("id"@) == Some(
                    match calls[k].get("id"@) {
                        Some(id) => id,
                        None => JsonView::Null,
                    },
                ),
                _ => false,
            },
            None => false,
        },
{
    reveal_strlit("assistant");
    reveal_strlit("system");
    reveal_strlit("tool");
    assert("assistant"@.len() == 9 && "system"@.len() == 6 && "tool"@.len() == 4);
    lemma_tool_use_blocks_ids(calls, decoded, base);
    let blocks = text_blocks(m) + tool_use_blocks(calls, decoded, base);
    assert(blocks[text_blocks(m).len() + k] == tool_use_blocks(calls, decoded, base)[k]);
}

pub open spec fn mapped_messages(msgs: Seq<JsonView>, decoded: Seq<Option<Json>>) -> Seq<JsonView>
    decreases msgs.len(),
{
    if msgs.len() == 0 {
        Seq::empty()
    } else {
        let rest = mapped_messages(msgs.drop_last(), decoded);
        match mapped_message(msgs.last(), decoded, argument_texts(msgs.drop_last()).len() as int) {
            Some(x) => rest.push(x),
            None => rest,
        }
    }
}

/// The text contents of the system messages, in order.
pub open spec fn system_texts(msgs: Seq<JsonView>) -> Seq<Seq<char>>
    decreases msgs.len(),
{
    if msgs.len() == 0 {
        Seq::empty()
    } else {
        let rest = system_texts(msgs.drop_last());
        if role_is(msgs.last(), "system"@) && msgs.last().str_field("content"@) is Some {
            rest.push(msgs.last().str_field("content"@).unwrap())
        } else {
            rest
        }
    }
}

pub open spec fn content_array(m: JsonView) -> Option<Seq<JsonView>> {
    match m.get("content"@) {
        Some(JsonView::Array(c)) => Some(c),
        _ => None,
    }
}

/// Two consecutive messages join when their roles agree and both carry
/// content arrays.
pub open spec fn joins(prev: JsonView, m: JsonView) -> bool {
    prev.get("role"@) == m.get("role"@) && content_array(prev) is Some && content_array(m) is Some
}

/// The members with the first one named `key` given the value `v`.
pub open spec fn replace_first(ms: Seq<(Seq<char>, JsonView)>, key: Seq<char>, v: JsonView) -> Seq<(Seq<char>, JsonView)>
    decreases ms.len(),
{
    if ms.len() == 0 {
        ms
    } else if ms[0].0 == key {
        ms.update(0, (key, v))
    } else {
        seq![ms[0]] + replace_first(ms.drop_first(), key, v)
    }
}

/// `prev` with `extra` appended to its content array.
pub open spec fn extended(prev: JsonView, extra: Seq<JsonView>) -> JsonView {
    match prev {
        JsonView::Object(ms) => JsonView::Object(
            replace_first(ms, "content"@, JsonView::Array(content_array(prev).unwrap() + extra)),
        ),
        _ => prev,
    }
}

pub open spec fn merge_into(acc: Seq<JsonView>, m: JsonView) -> Seq<JsonView> {
    if acc.len() > 0 && joins(acc.last(), m) {
        acc.update(acc.len() - 1, extended(acc.last(), content_array(m).unwrap()))
    } else {
        acc.push(m)
    }
}

/// The messages with each run of joining messages folded into its first.
pub open spec fn merged(ms: Seq<JsonView>) -> Seq<JsonView>
    decreases ms.len(),
{
    if ms.len() == 0 {
        Seq::empty()
    } else {
        merge_into(merged(ms.drop_last()), ms.last())
    }
}

/// The parts joined by `sep`.
pub open spec fn joined_with(parts: Seq<Seq<char>>, sep: Seq<char>) -> Seq<char>
    decreases parts.len(),
{
    if parts.len() == 0 {
        Seq::empty()
    } else if parts.len() == 1 {
        parts[0]
    } else {
        joined_with(parts.drop_last(), sep) + sep + parts.last()
    }
}

/// The Messages body's `messages`.
pub open spec fn anthropic_messages(req: ProviderRequest, decoded: Seq<Option<Json>>) -> Seq<JsonView> {
    merged(mapped_messages(message_list(req.messages@), decoded))
}

/// A Messages body field before settings.
pub open spec fn anthropic_base(
    req: ProviderRequest,
    stream: bool,
    decoded: Seq<Option<Json>>,
    key: Seq<char>,
) -> Option<JsonView> {
    let system = system_texts(message_list(req.messages@));
    if stream && key == "stream"@ {
        Some(JsonView::Bool(true))
    } else if system.len() > 0 && key == "system"@ {
        Some(JsonView::Str(joined_with(system, "\n\n"@)))
    } else if key == "max_tokens"@ {
        Some(JsonView::Number(NumberView::PosInt(4096)))
    } else if key == "messages"@ {
        Some(JsonView::Array(anthropic_messages(req, decoded)))
    } else if key == "model"@ {
        Some(JsonView::Str(req.model@))
    } else {
        None
    }
}

/// A Messages body field: the tools, declared after the settings, win over
/// them.
pub open spec fn anthropic_field(
    req: ProviderRequest,
    stream: bool,
    decoded: Seq<Option<Json>>,
    key: Seq<char>,
) -> Option<JsonView> {
    if req.tools is Some && key == "tools"@ {
        Some(JsonView::Array(tool_functions(req.tools.unwrap()@).map_values(|f: JsonView| anthropic_tool(f))))
    } else {
        overlaid(req.settings, key, anthropic_base(req, stream, decoded, key))
    }
}

fn has_role(m: &Json, role: &str) -> (r: bool)
    ensures
        r == role_is(m@, role@),
{
    match m.str_field("role") {
        Some(s) => crate::text::str_eq(s, role),
        None => false,
    }
}

/// The message's tool calls, when it is an assistant message calling tools.
fn calls_of(m: &Json) -> (r: Option<&Vec<Json>>)
    ensures
        r is Some <==> carries_calls(m@),
        r matches Some(c) ==> items_view(c@) == call_list(m@),
{
    if !has_role(m, "assistant") {
        return None;
    }
    match m.get("tool_calls") {
        Some(Json::Array(c)) => {
            proof {
                crate::json::lemma_items_view(c@);
            }
            if c.len() > 0 {
                Some(c)
            } else {
                None
            }
        },
        _ => None,
    }
}

fn text_of_call(call: &Json) -> (r: Option<&str>)
    ensures
        r is Some <==> call_text(call@) is Some,
        r matches Some(t) ==> call_text(call@) == Some(t@),
{
    match call.get("function") {
        Some(f) => f.str_field("arguments"),
        None => None,
    }
}

/// The argument texts of every tool call in the messages, in order; the
/// host decodes each and hands the results to `build_anthropic_body`.
pub fn anthropic_argument_texts(messages: &Json) -> (r: Vec<String>)
    ensures
        crate::text::names(r@) == argument_texts(message_list(messages@)),
{
    let mut out: Vec<String> = Vec::new();
    match messages {
        Json::Array(msgs) => {
            proof {
                crate::json::lemma_items_view(msgs@);
            }
            let ghost mv = items_view(msgs@);
            let mut i: usize = 0;
            while i < msgs.len()
                invariant
                    i <= msgs.len(),
                    mv == items_view(msgs@),
                    mv.len() == msgs@.len(),
                    forall|x: int| 0 <= x < msgs@.len() ==> #[trigger] mv[x] == msgs@[x]@,
                    crate::text::names(out@) == argument_texts(mv.subrange(0, i as int)),
                decreases msgs.len() - i,
            {
                proof {
                    assert(mv.subrange(0, i + 1).drop_last() =~= mv.subrange(0, i as int));
                }
                let ghost before = crate::text::names(out@);
                match calls_of(&msgs[i]) {
                    Some(calls) => {
                        let ghost cv = items_view(calls@);
                        proof {
                            crate::json::lemma_items_view(calls@);
                        }
                        let mut j: usize = 0;
                        while j < calls.len()
                            invariant
                                j <= calls.len(),
                                cv == items_view(calls@),
                                cv.len() == calls@.len(),
                                forall|x: int| 0 <= x < calls@.len() ==> #[trigger] cv[x] == calls@[x]@,
                                crate::text::names(out@) == before + call_texts(cv.subrange(0, j as int)),
                            decreases calls.len() - j,
                        {
                            proof {
                                assert(cv.subrange(0, j + 1).drop_last() =~= cv.subrange(0, j as int));
                            }
                            match text_of_call(&calls[j]) {
                                Some(t) => {
                                    let ghost old_out = out@;
                                    out.push(owned(t));
                                    proof {
                                        crate::text::lemma_names_push(old_out, out@.last());
                                        assert(crate::text::names(out@) =~= before + call_texts(cv.subrange(0, j + 1)));
                                    }
                                },
                                None => {
                                    proof {
                                        assert(crate::text::names(out@) =~= before + call_texts(cv.subrange(0, j + 1)));
                                    }
                                },
                            }
                            j = j + 1;
                        }
                        proof {
                            assert(cv.subrange(0, calls@.len() as int) =~= cv);
                            assert(crate::text::names(out@) =~= argument_texts(mv.subrange(0, i + 1)));
                        }
                    },
                    None => {
                        proof {
                            assert(crate::text::names(out@) =~= argument_texts(mv.subrange(0, i + 1)));
                        }
                    },
                }
                i = i + 1;
            }
            proof {
                assert(mv.subrange(0, msgs@.len() as int) =~= mv);
            }
        },
        _ => {
            proof {
                assert(crate::text::names(out@) =~= Seq::<Seq<char>>::empty());
            }
        },
    }
    out
}

/// `base`, or `n` when `base` reaches past it.
pub open spec fn capped(base: int, n: int) -> int {
    if base < n {
        base
    } else {
        n
    }
}

fn empty_object_json() -> (r: Json)
    ensures
        r@ == empty_object(),
{
    let members: Vec<(String, Json)> = Vec::new();
    proof {
        crate::json::lemma_members_view(members@);
        assert(members_view(members@) =~= Seq::<(Seq<char>, JsonView)>::empty());
    }
    Json::Object(members)
}

/// What the argument text at position `base` decoded to, `{}` when it did
/// not decode; `at` is `base` held below the number of decoded texts.
fn decoded_input(decoded: &Vec<Option<Json>>, at: usize, Ghost(base): Ghost<int>) -> (r: Json)
    requires
        base >= 0,
        at == capped(base, decoded@.len() as int),
    ensures
        r@ == match decoded_at(decoded@, base) {
            Some(v) => v,
            None => empty_object(),
        },
{
    if at < decoded.len() {
        match &decoded[at] {
            Some(v) => v.deep_clone(),
            None => empty_object_json(),
        }
    } else {
        empty_object_json()
    }
}

/// A tool message as a user message carrying one `tool_result` block.
fn tool_result_of(m: &Json) -> (r: Json)
    ensures
        r@ == tool_result_message(m@),
{
    let text = match m.str_field("content") {
        Some(t) => owned(t),
        None => match m.get("content") {
            Some(c) => c.to_text(),
            None => Json::Null.to_text(),
        },
    };
    let id = match m.get("tool_call_id") {
        Some(v) => v.deep_clone(),
        None => Json::Null,
    };
    let block = vec![
        (key("content"), Json::String(text)),
        (key("tool_use_id"), id),
        (key("type"), Json::String(key("tool_result"))),
    ];
    proof {
        crate::json::lemma_members_view(block@);
    }
    let blocks = vec![Json::Object(block)];
    proof {
        crate::json::lemma_items_view(blocks@);
    }
    let members = vec![(key("content"), Json::Array(blocks)), (key("role"), Json::String(key("user")))];
    proof {
        crate::json::lemma_members_view(members@);
        assert(members_view(block@) =~= seq![
            ("content"@, JsonView::Str(tool_result_text(m@))),
            ("tool_use_id"@, or_null(m@.get("tool_call_id"@))),
            ("type"@, JsonView::Str("tool_result"@)),
        ]);
        assert(items_view(blocks@) =~= seq![JsonView::Object(members_view(block@))]);
        assert(members_view(members@) =~= seq![
            ("content"@, JsonView::Array(items_view(blocks@))),
            ("role"@, JsonView::Str("user"@)),
        ]);
    }
    Json::Object(members)
}

/// An assistant message that calls tools, as text and `tool_use` blocks;
/// also returns the position of the next undecoded argument text.
fn calling_of(
    m: &Json,
    calls: &Vec<Json>,
    decoded: &Vec<Option<Json>>,
    at: usize,
    Ghost(base): Ghost<int>,
) -> (r: (Json, usize))
    requires
        base >= 0,
        carries_calls(m@),
        items_view(calls@) == call_list(m@),
        at == capped(base, decoded@.len() as int),
    ensures
        r.0@ == calling_message(m@, decoded@, base),
        r.1 == capped(base + message_texts(m@).len(), decoded@.len() as int),
{
    let mut blocks: Vec<Json> = Vec::new();
    match m.str_field("content") {
        Some(t) => {
            if !t.is_empty() {
                let block = vec![(key("text"), Json::String(owned(t))), (key("type"), Json::String(key("text")))];
                proof {
                    crate::json::lemma_members_view(block@);
                    assert(members_view(block@) =~= seq![("text"@, JsonView::Str(t@)), ("type"@, JsonView::Str("text"@))]);
                }
                blocks.push(Json::Object(block));
            }
        },
        None => {},
    }
    proof {
        crate::json::lemma_items_view(blocks@);
        assert(items_view(blocks@) =~= text_blocks(m@));
    }
    let ghost head = items_view(blocks@);
    let ghost cv = items_view(calls@);
    proof {
        crate::json::lemma_items_view(calls@);
    }
    let mut pos = at;
    let mut j: usize = 0;
    while j < calls.len()
        invariant
            j <= calls.len(),
            base >= 0,
            cv == items_view(calls@),
            cv.len() == calls@.len(),
            forall|x: int| 0 <= x < calls@.len() ==> #[trigger] cv[x] == calls@[x]@,
            pos == capped(base + call_texts(cv.subrange(0, j as int)).len(), decoded@.len() as int),
            items_view(blocks@) == head + tool_use_blocks(cv.subrange(0, j as int), decoded@, base),
        decreases calls.len() - j,
    {
        let call = &calls[j];
        proof {
            assert(cv.subrange(0, j + 1).drop_last() =~= cv.subrange(0, j as int));
            assert(cv.subrange(0, j + 1).last() == call@);
        }
        let ghost done = call_texts(cv.subrange(0, j as int)).len() as int;
        let input = match text_of_call(call) {
            Some(_) => {
                let v = decoded_input(decoded, pos, Ghost(base + done));
                if pos < decoded.len() {
                    pos = pos + 1;
                }
                v
            },
            None => empty_object_json(),
        };
        let id = match call.get("id") {
            Some(v) => v.deep_clone(),
            None => Json::Null,
        };
        let name = match call.get("function") {
            Some(f) => match f.get("name") {
                Some(n) => n.deep_clone(),
                None => Json::Null,
            },
            None => Json::Null,
        };
        let block = vec![
            (key("id"), id),
            (key("input"), input),
            (key("name"), name),
            (key("type"), Json::String(key("tool_use"))),
        ];
        proof {
            crate::json::lemma_members_view(block@);
            assert(members_view(block@) =~= seq![
                ("id"@, or_null(call@.get("id"@))),
                ("input"@, call_input(call@, decoded@, base + done)),
                ("name"@, or_null(call_function(call@).get("name"@))),
                ("type"@, JsonView::Str("tool_use"@)),
            ]);
        }
        let ghost before = blocks@;
        blocks.push(Json::Object(block));
        proof {
            crate::json::lemma_items_view_push(before, blocks@.last());
            assert(before.push(blocks@.last()) =~= blocks@);
            assert(items_view(blocks@) =~= head + tool_use_blocks(cv.subrange(0, j + 1), decoded@, base));
        }
        j = j + 1;
    }
    proof {
        assert(cv.subrange(0, calls@.len() as int) =~= cv);
        crate::json::lemma_items_view(blocks@);
    }
    let members = vec![(key("content"), Json::Array(blocks)), (key("role"), Json::String(key("assistant")))];
    proof {
        crate::json::lemma_members_view(members@);
        assert(members_view(members@) =~= seq![
            ("content"@, JsonView::Array(text_blocks(m@) + tool_use_blocks(call_list(m@), decoded@, base))),
            ("role"@, JsonView::Str("assistant"@)),
        ]);
    }
    (Json::Object(members), pos)
}

/// Replacing the first member named `key` replaces the member at its index.
proof fn lemma_replace_first(ms: Seq<(Seq<char>, JsonView)>, key: Seq<char>, v: JsonView, i: int)
    requires
        0 <= i < ms.len(),
        ms[i].0 == key,
        forall|j: int| 0 <= j < i ==> ms[j].0 != key,
    ensures
        replace_first(ms, key, v) == ms.update(i, (key, v)),
    decreases i,
{
    if i > 0 {
        assert forall|j: int| 0 <= j < i - 1 implies ms.drop_first()[j].0 != key by {
            assert(ms.drop_first()[j] == ms[j + 1]);
        }
        lemma_replace_first(ms.drop_first(), key, v, i - 1);
        assert(seq![ms[0]] + ms.drop_first().update(i - 1, (key, v)) =~= ms.update(i, (key, v)));
    }
}

proof fn lemma_items_view_concat(a: Seq<Json>, b: Seq<Json>)
    ensures
        items_view(a + b) == items_view(a) + items_view(b),
{
    crate::json::lemma_items_view(a);
    crate::json::lemma_items_view(b);
    crate::json::lemma_items_view(a + b);
    assert(items_view(a + b) =~= items_view(a) + items_view(b));
}

/// `prev` with `extra` appended to its content array.
fn extend_content(prev: Json, extra: Vec<Json>) -> (r: Json)
    requires
        content_array(prev@) is Some,
    ensures
        r@ == extended(prev@, items_view(extra@)),
{
    let ghost pv = prev@;
    match prev {
        Json::Object(mut ms) => {
            proof {
                crate::json::lemma_members_view(ms@);
            }
            let ghost mv = members_view(ms@);
            let mut i: usize = 0;
            while i < ms.len() && !crate::text::str_eq(ms[i].0.as_str(), "content")
                invariant
                    i <= ms.len(),
                    mv == members_view(ms@),
                    mv.len() == ms@.len(),
                    forall|x: int| 0 <= x < ms@.len() ==> #[trigger] mv[x] == (ms@[x].0@, ms@[x].1@),
                    forall|x: int| 0 <= x < i ==> mv[x].0 != "content"@,
                decreases ms.len() - i,
            {
                i = i + 1;
            }
            if i == ms.len() {
                proof {
                    crate::json::lemma_lookup_none(mv, "content"@);
                }
                return Json::Null;
            }
            proof {
                crate::json::lemma_lookup_index(mv, "content"@, i as int);
            }
            let updated = match &ms[i].1 {
                Json::Array(items) => {
                    let mut grown = crate::json::clone_items(items);
                    let mut more = extra;
                    let ghost a = grown@;
                    let ghost b = more@;
                    grown.append(&mut more);
                    proof {
                        lemma_items_view_concat(a, b);
                    }
                    Json::Array(grown)
                },
                _ => {
                    return Json::Null;
                },
            };
            let k = ms[i].0.clone();
            let ghost old_ms = ms@;
            ms.set(i, (k, updated));
            proof {
                lemma_replace_first(mv, "content"@, updated@, i as int);
                crate::json::lemma_members_view(ms@);
                assert(ms@ =~= old_ms.update(i as int, (k, updated)));
                assert(members_view(ms@) =~= mv.update(i as int, ("content"@, updated@)));
            }
            Json::Object(ms)
        },
        _ => Json::Null,
    }
}

/// Consecutive messages join: same role, both with content arrays.
fn joins_exec(prev: &Json, m: &Json) -> (r: bool)
    ensures
        r == joins(prev@, m@),
{
    let same_role = match (prev.get("role"), m.get("role")) {
        (None, None) => true,
        (Some(a), Some(b)) => a.same(b),
        _ => false,
    };
    let prev_array = match prev.get("content") {
        Some(Json::Array(_)) => true,
        _ => false,
    };
    let next_array = match m.get("content") {
        Some(Json::Array(_)) => true,
        _ => false,
    };
    same_role && prev_array && next_array
}

/// Append a message, folding it into the last one when the two join.
fn merge_push(acc: &mut Vec<Json>, m: Json)
    ensures
        items_view(final(acc)@) == merge_into(items_view(old(acc)@), m@),
{
    proof {
        crate::json::lemma_items_view(acc@);
    }
    let n = acc.len();
    if n > 0 && joins_exec(&acc[n - 1], &m) {
        let ghost s = acc@;
        let extra = match m.get("content") {
            Some(Json::Array(items)) => crate::json::clone_items(items),
            _ => Vec::new(),
        };
        let prev = acc.pop().unwrap();
        let folded = extend_content(prev, extra);
        acc.push(folded);
        proof {
            assert(acc@ =~= s.update(n - 1, folded));
            crate::json::lemma_items_view(acc@);
            assert(items_view(acc@) =~= items_view(s).update(n - 1, folded@));
        }
    } else {
        let ghost s = acc@;
        acc.push(m);
        proof {
            crate::json::lemma_items_view_push(s, m);
        }
    }
}

/// The parts joined by `sep`.
fn join_with(parts: &Vec<String>, sep: &str) -> (r: String)
    ensures
        r@ == joined_with(crate::text::names(parts@), sep@),
{
    let ghost ps = crate::text::names(parts@);
    let mut out = String::new();
    let mut i: usize = 0;
    while i < parts.len()
        invariant
            i <= parts.len(),
            ps == crate::text::names(parts@),
            out@ == joined_with(ps.subrange(0, i as int), sep@),
        decreases parts.len() - i,
    {
        proof {
            assert(ps.subrange(0, i + 1).drop_last() =~= ps.subrange(0, i as int));
        }
        if i > 0 {
            out.append(sep);
        } else {
            assert(out@ =~= Seq::<char>::empty());
        }
        out.append(parts[i].as_str());
        proof {
            if i == 0 {
                assert(out@ =~= ps.subrange(0, 1)[0]);
            }
        }
        i = i + 1;
    }
    proof {
        assert(ps.subrange(0, parts@.len() as int) =~= ps);
    }
    out
}

proof fn lemma_roles_differ()
    ensures
        "system"@ != "assistant"@,
        "tool"@ != "assistant"@,
{
    reveal_strlit("system");
    reveal_strlit("assistant");
    reveal_strlit("tool");
    assert("system"@.len() == 6);
    assert("assistant"@.len() == 9);
    assert("tool"@.len() == 4);
}

/// Decode each text with serde_json.
fn decode_all(texts: &Vec<String>) -> (r: Vec<Option<Json>>)
    ensures
        r@.len() == texts@.len(),
        forall|i: int| 0 <= i < texts@.len() ==> #[trigger] crate::decoding::decoded_view(r@[i])
            == crate::decoding::json_decoding(texts@[i]@),
{
    let mut out: Vec<Option<Json>> = Vec::new();
    let mut i: usize = 0;
    while i < texts.len()
        invariant
            i <= texts.len(),
            out@.len() == i,
            forall|j: int| 0 <= j < i ==> #[trigger] crate::decoding::decoded_view(out@[j])
                == crate::decoding::json_decoding(texts@[j]@),
        decreases texts.len() - i,
    {
        out.push(crate::decoding::decode_json(texts[i].as_str()));
        i = i + 1;
    }
    out
}

/// The Messages request body, with each tool call's argument text decoded
/// as JSON (a text that does not decode gives its call the input `{}`).
pub fn anthropic_request_body(req: &ProviderRequest, should_stream: bool) -> (body: Json)
    ensures
        exists|decoded: Seq<Option<Json>>|
            #![trigger anthropic_field(*req, should_stream, decoded, ""@)]
            decoded.len() == argument_texts(message_list(req.messages@)).len() && (forall|i: int|
                0 <= i < decoded.len() ==> #[trigger] crate::decoding::decoded_view(decoded[i])
                    == crate::decoding::json_decoding(argument_texts(message_list(req.messages@))[i]))
                && sorted_object(body@) && forall|k: Seq<char>| #![trigger lookup(body_members(body@), k)]
                lookup(body_members(body@), k) == anthropic_field(*req, should_stream, decoded, k),
{
    let texts = anthropic_argument_texts(&req.messages);
    let decoded = decode_all(&texts);
    proof {
        assert forall|i: int| 0 <= i < decoded@.len() implies #[trigger] crate::decoding::decoded_view(decoded@[i])
            == crate::decoding::json_decoding(argument_texts(message_list(req.messages@))[i]) by {
            assert(crate::text::names(texts@)[i] == texts@[i]@);
        }
    }
    let body = build_anthropic_body(req, should_stream, &decoded);
    proof {
        // The field function at the decoded texts witnesses the existential.
        let _ = anthropic_field(*req, should_stream, decoded@, ""@);
    }
    body
}

/// The Messages request body. `decoded` holds what the host decoded each of
/// `anthropic_argument_texts(&req.messages)` to, in order; a text that did
/// not decode (or is missing) gives its tool call the input `{}`.
pub fn build_anthropic_body(req: &ProviderRequest, should_stream: bool, decoded: &Vec<Option<Json>>) -> (body: Json)
    ensures
        sorted_object(body@),
        forall|k: Seq<char>| #![trigger lookup(body_members(body@), k)]
            lookup(body_members(body@), k) == anthropic_field(*req, should_stream, decoded@, k),
{
    let mut system: Vec<String> = Vec::new();
    let mut acc: Vec<Json> = Vec::new();
    proof {
        lemma_roles_differ();
        crate::json::lemma_items_view(acc@);
        assert(crate::text::names(system@) =~= Seq::<Seq<char>>::empty());
    }
    match &req.messages {
        Json::Array(msgs) => {
            proof {
                crate::json::lemma_items_view(msgs@);
            }
            let ghost mv = items_view(msgs@);
            let mut pos: usize = 0;
            let mut i: usize = 0;
            while i < msgs.len()
                invariant
                    i <= msgs.len(),
                    mv == items_view(msgs@),
                    mv.len() == msgs@.len(),
                    forall|x: int| 0 <= x < msgs@.len() ==> #[trigger] mv[x] == msgs@[x]@,
                    "system"@ != "assistant"@,
                    "tool"@ != "assistant"@,
                    crate::text::names(system@) == system_texts(mv.subrange(0, i as int)),
                    items_view(acc@) == merged(mapped_messages(mv.subrange(0, i as int), decoded@)),
                    pos == capped(argument_texts(mv.subrange(0, i as int)).len() as int, decoded@.len() as int),
                decreases msgs.len() - i,
            {
                let m = &msgs[i];
                let ghost prefix = mv.subrange(0, i as int);
                let ghost base = argument_texts(prefix).len() as int;
                proof {
                    assert(mv.subrange(0, i + 1).drop_last() =~= prefix);
                    assert(mv.subrange(0, i + 1).last() == m@);
                }
                let ghost mapped_before = mapped_messages(prefix, decoded@);
                if has_role(m, "system") {
                    match m.str_field("content") {
                        Some(t) => {
                            let ghost old_sys = system@;
                            system.push(owned(t));
                            proof {
                                crate::text::lemma_names_push(old_sys, system@.last());
                                assert(old_sys.push(system@.last()) =~= system@);
                            }
                        },
                        None => {},
                    }
                    proof {
                        assert(argument_texts(mv.subrange(0, i + 1)) =~= argument_texts(prefix));
                    }
                } else if has_role(m, "tool") {
                    let x = tool_result_of(m);
                    merge_push(&mut acc, x);
                    proof {
                        assert(mapped_messages(mv.subrange(0, i + 1), decoded@) == mapped_before.push(x@));
                        assert(mapped_before.push(x@).drop_last() =~= mapped_before);
                        assert(argument_texts(mv.subrange(0, i + 1)) =~= argument_texts(prefix));
                    }
                } else {
                    match calls_of(m) {
                        Some(calls) => {
                            let (x, next) = calling_of(m, calls, decoded, pos, Ghost(base));
                            pos = next;
                            merge_push(&mut acc, x);
                            proof {
                                assert(mapped_messages(mv.subrange(0, i + 1), decoded@) == mapped_before.push(x@));
                                assert(mapped_before.push(x@).drop_last() =~= mapped_before);
                            }
                        },
                        None => {
                            let x = m.deep_clone();
                            merge_push(&mut acc, x);
                            proof {
                                assert(mapped_messages(mv.subrange(0, i + 1), decoded@) == mapped_before.push(x@));
                                assert(mapped_before.push(x@).drop_last() =~= mapped_before);
                                assert(argument_texts(mv.subrange(0, i + 1)) =~= argument_texts(prefix));
                            }
                        },
                    }
                }
                i = i + 1;
            }
            proof {
                assert(mv.subrange(0, msgs@.len() as int) =~= mv);
            }
        },
        _ => {},
    }
    let ghost messages = items_view(acc@);
    let mut m: StrMap<Json> = StrMap::new();
    m.insert(key("model"), Json::String(req.model.clone()));
    m.insert(key("messages"), Json::Array(acc));
    m.insert(key("max_tokens"), Json::Number(JsonNumber::PosInt(4096)));
    if system.len() > 0 {
        m.insert(key("system"), Json::String(join_with(&system, "\n\n")));
    }
    if should_stream {
        m.insert(key("stream"), Json::Bool(true));
    }
    let ghost before = m@;
    overlay_settings(&mut m, &req.settings);
    let ghost overlaid_map = m@;
    match &req.tools {
        Some(tools) => {
            m.insert(key("tools"), tool_declarations(tools, true));
        },
        None => {},
    }
    let body = into_body(m);
    proof {
        assert(messages == anthropic_messages(*req, decoded@));
        assert forall|k: Seq<char>| #![trigger lookup(body_members(body@), k)]
            lookup(body_members(body@), k) == anthropic_field(*req, should_stream, decoded@, k) by {
            assert(field_of(before, k) == anthropic_base(*req, should_stream, decoded@, k));
            assert(field_of(overlaid_map, k) == overlaid(req.settings, k, field_of(before, k)));
        }
    }
    body
}

} // verus!
