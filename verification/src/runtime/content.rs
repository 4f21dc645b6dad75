//! What the runtime hands a provider as a user turn, and how it checks
//! tool arguments against a tool's schema.
//!
//! The transcript keeps attachments in one provider-neutral shape; each
//! protocol receives them in its own shape when a turn is sent, so a session
//! survives a change of model.

use vstd::prelude::*;

use crate::json::{items_view, lookup, members_view, Json, JsonView, NumberView};
use crate::text::{concat2, decimal, decimal_of, owned, seq_ends_with, seq_split_once, seq_starts_with, str_eq};

verus! {

/// A base64 data URL's media type and data.
pub open spec fn data_url_parts(value: Seq<char>) -> Option<(Seq<char>, Seq<char>)> {
    if !seq_starts_with(value, "data:"@) {
        None
    } else {
        let rest = value.subrange("data:"@.len() as int, value.len() as int);
        match seq_split_once(rest, ',') {
            None => None,
            Some((metadata, data)) => if seq_ends_with(metadata, ";base64"@) {
                Some((metadata.subrange(0, metadata.len() - ";base64"@.len()), data))
            } else {
                None
            },
        }
    }
}

/// Split `data:<media type>;base64,<data>`.
pub fn split_data_url(value: &str) -> (r: Option<(String, String)>)
    ensures
        match data_url_parts(value@) {
            Some((m, d)) => r matches Some(p) && p.0@ == m && p.1@ == d,
            None => r is None,
        },
{
    let rest = match crate::text::strip_prefix(value, "data:") {
        Some(r) => r,
        None => {
            return None;
        },
    };
    let (metadata, data) = match crate::text::split_once(rest.as_str(), ',') {
        Some(p) => p,
        None => {
            return None;
        },
    };
    if !crate::text::ends_with(metadata.as_str(), ";base64") {
        return None;
    }
    let v = crate::text::chars_of(metadata.as_str());
    let suffix = crate::text::chars_of(";base64");
    let media_type = crate::text::string_from(&v, 0, v.len() - suffix.len());
    Some((media_type, data))
}

// -- The user turn --------------------------------------------------------------------

/// An attachment's kind (empty when it has none) and name.
pub open spec fn kind_of(a: JsonView) -> Seq<char> {
    match a.str_field("kind"@) {
        Some(k) => k,
        None => Seq::empty(),
    }
}

pub open spec fn name_of(a: JsonView) -> Seq<char> {
    match a.str_field("name"@) {
        Some(n) => n,
        None => "attachment"@,
    }
}

/// A text attachment as the model reads it.
pub open spec fn file_text(name: Seq<char>, value: Seq<char>) -> Seq<char> {
    "<file name=\""@ + name + "\">\n"@ + value + "\n</file>"@
}

pub open spec fn typed_text(kind: Seq<char>, text: Seq<char>) -> JsonView {
    JsonView::Object(seq![("text"@, JsonView::Str(text)), ("type"@, JsonView::Str(kind))])
}

/// The Messages blocks of one attachment.
pub open spec fn anthropic_blocks(a: JsonView) -> Seq<JsonView> {
    if kind_of(a) == "text"@ {
        match a.str_field("text"@) {
            Some(v) => seq![typed_text("text"@, file_text(name_of(a), v))],
            None => Seq::empty(),
        }
    } else {
        match a.str_field("data_url"@) {
            Some(url) => match data_url_parts(url) {
                Some((media_type, data)) => seq![JsonView::Object(
                    seq![
                        ("source"@, JsonView::Object(seq![
                            ("data"@, JsonView::Str(data)),
                            ("media_type"@, JsonView::Str(media_type)),
                            ("type"@, JsonView::Str("base64"@)),
                        ])),
                        ("type"@, JsonView::Str(if kind_of(a) == "pdf"@ { "document"@ } else { "image"@ })),
                    ],
                )],
                None => Seq::empty(),
            },
            None => Seq::empty(),
        }
    }
}

/// The Responses parts of one attachment.
pub open spec fn responses_parts(a: JsonView) -> Seq<JsonView> {
    if kind_of(a) == "text"@ {
        match a.str_field("text"@) {
            Some(v) => seq![typed_text("input_text"@, file_text(name_of(a), v))],
            None => Seq::empty(),
        }
    } else {
        match a.str_field("data_url"@) {
            Some(url) => if kind_of(a) == "pdf"@ {
                seq![JsonView::Object(
                    seq![
                        ("file_data"@, JsonView::Str(url)),
                        ("filename"@, JsonView::Str(name_of(a))),
                        ("type"@, JsonView::Str("input_file"@)),
                    ],
                )]
            } else {
                seq![JsonView::Object(seq![("image_url"@, JsonView::Str(url)), ("type"@, JsonView::Str("input_image"@))])]
            },
            None => Seq::empty(),
        }
    }
}

/// The Chat Completions parts of one attachment: PDFs (and any other kind)
/// are named in a note, since the protocol cannot carry them.
pub open spec fn chat_parts(a: JsonView) -> Seq<JsonView> {
    if kind_of(a) == "text"@ {
        match a.str_field("text"@) {
            Some(v) => seq![typed_text("text"@, file_text(name_of(a), v))],
            None => Seq::empty(),
        }
    } else if kind_of(a) == "image"@ {
        match a.str_field("data_url"@) {
            Some(url) => seq![JsonView::Object(
                seq![
                    ("image_url"@, JsonView::Object(seq![("url"@, JsonView::Str(url))])),
                    ("type"@, JsonView::Str("image_url"@)),
                ],
            )],
            None => Seq::empty(),
        }
    } else {
        seq![typed_text(
            "text"@,
            "[Attached PDF: "@ + name_of(a) + "; select an OpenAI Responses or Anthropic model for native PDF input]"@,
        )]
    }
}

/// The parts one attachment becomes under `protocol`.
pub open spec fn attachment_parts(protocol: Seq<char>, a: JsonView) -> Seq<JsonView> {
    if protocol == "anthropic"@ {
        anthropic_blocks(a)
    } else if protocol == "openai_responses"@ {
        responses_parts(a)
    } else {
        chat_parts(a)
    }
}

/// The kind of the text part under `protocol`.
pub open spec fn text_kind(protocol: Seq<char>) -> Seq<char> {
    if protocol == "openai_responses"@ {
        "input_text"@
    } else {
        "text"@
    }
}

pub open spec fn all_parts(protocol: Seq<char>, atts: Seq<JsonView>) -> Seq<JsonView>
    decreases atts.len(),
{
    if atts.len() == 0 {
        Seq::empty()
    } else {
        all_parts(protocol, atts.drop_last()) + attachment_parts(protocol, atts.last())
    }
}

/// A user turn under `protocol`: its text (when not empty), then each
/// attachment in order.
pub open spec fn user_content(protocol: Seq<char>, text: Seq<char>, atts: Seq<JsonView>) -> JsonView {
    JsonView::Array(
        (if text.len() > 0 {
            seq![typed_text(text_kind(protocol), text)]
        } else {
            Seq::empty()
        }) + all_parts(protocol, atts),
    )
}

fn obj(members: Vec<(String, Json)>) -> (r: Json)
    ensures
        r@ == JsonView::Object(members_view(members@)),
{
    Json::Object(members)
}

fn text_part(kind: &str, text: String) -> (r: Json)
    ensures
        r@ == typed_text(kind@, text@),
{
    let ghost tv = text@;
    let members = vec![(owned("text"), Json::String(text)), (owned("type"), Json::String(owned(kind)))];
    proof {
        crate::json::lemma_members_view(members@);
        assert(members_view(members@) =~= seq![("text"@, JsonView::Str(tv)), ("type"@, JsonView::Str(kind@))]);
    }
    obj(members)
}

fn file_text_of(name: &str, value: &str) -> (r: String)
    ensures
        r@ == file_text(name@, value@),
{
    let mut r = owned("<file name=\"");
    r.append(name);
    r.append("\">\n");
    r.append(value);
    r.append("\n</file>");
    r
}

fn protocol_text_kind(protocol: &str) -> (r: &'static str)
    ensures
        r@ == text_kind(protocol@),
{
    if str_eq(protocol, "openai_responses") {
        "input_text"
    } else {
        "text"
    }
}

fn parts_of(protocol: &str, a: &Json) -> (r: Vec<Json>)
    ensures
        items_view(r@) == attachment_parts(protocol@, a@),
{
    let kind = match a.str_field("kind") {
        Some(k) => k,
        None => "",
    };
    let name = match a.str_field("name") {
        Some(n) => n,
        None => "attachment",
    };
    proof {
        reveal_strlit("");
        assert(""@ =~= Seq::<char>::empty());
    }
    let mut out: Vec<Json> = Vec::new();
    let anthropic = str_eq(protocol, "anthropic");
    let responses = str_eq(protocol, "openai_responses");
    if str_eq(kind, "text") {
        match a.str_field("text") {
            Some(v) => {
                out.push(text_part(protocol_text_kind(protocol), file_text_of(name, v)));
                proof {
                    if anthropic {
                        reveal_strlit("anthropic");
                        reveal_strlit("openai_responses");
                        assert("anthropic"@.len() != "openai_responses"@.len());
                    }
                }
            },
            None => {},
        }
    } else if anthropic {
        match a.str_field("data_url") {
            Some(url) => match split_data_url(url) {
                Some((media_type, data)) => {
                    let source = vec![
                        (owned("data"), Json::String(data)),
                        (owned("media_type"), Json::String(media_type)),
                        (owned("type"), Json::String(owned("base64"))),
                    ];
                    let block_type = if str_eq(kind, "pdf") {
                        "document"
                    } else {
                        "image"
                    };
                    let ghost dv = data@;
                    let ghost mt = media_type@;
                    let members = vec![(owned("source"), obj(source)), (owned("type"), Json::String(owned(block_type)))];
                    proof {
                        crate::json::lemma_members_view(source@);
                        crate::json::lemma_members_view(members@);
                        assert(members_view(source@) =~= seq![
                            ("data"@, JsonView::Str(dv)),
                            ("media_type"@, JsonView::Str(mt)),
                            ("type"@, JsonView::Str("base64"@)),
                        ]);
                        assert(members_view(members@) =~= seq![
                            ("source"@, JsonView::Object(members_view(source@))),
                            ("type"@, JsonView::Str(block_type@)),
                        ]);
                    }
                    out.push(obj(members));
                },
                None => {},
            },
            None => {},
        }
    } else if responses {
        match a.str_field("data_url") {
            Some(url) => {
                if str_eq(kind, "pdf") {
                    let members = vec![
                        (owned("file_data"), Json::String(owned(url))),
                        (owned("filename"), Json::String(owned(name))),
                        (owned("type"), Json::String(owned("input_file"))),
                    ];
                    proof {
                        crate::json::lemma_members_view(members@);
                        assert(members_view(members@) =~= seq![
                            ("file_data"@, JsonView::Str(url@)),
                            ("filename"@, JsonView::Str(name@)),
                            ("type"@, JsonView::Str("input_file"@)),
                        ]);
                    }
                    out.push(obj(members));
                } else {
                    let members = vec![
                        (owned("image_url"), Json::String(owned(url))),
                        (owned("type"), Json::String(owned("input_image"))),
                    ];
                    proof {
                        crate::json::lemma_members_view(members@);
                        assert(members_view(members@) =~= seq![("image_url"@, JsonView::Str(url@)), ("type"@, JsonView::Str("input_image"@))]);
                    }
                    out.push(obj(members));
                }
            },
            None => {},
        }
    } else if str_eq(kind, "image") {
        match a.str_field("data_url") {
            Some(url) => {
                let inner = vec![(owned("url"), Json::String(owned(url)))];
                let members = vec![(owned("image_url"), obj(inner)), (owned("type"), Json::String(owned("image_url")))];
                proof {
                    crate::json::lemma_members_view(inner@);
                    crate::json::lemma_members_view(members@);
                    assert(members_view(inner@) =~= seq![("url"@, JsonView::Str(url@))]);
                    assert(members_view(members@) =~= seq![
                        ("image_url"@, JsonView::Object(members_view(inner@))),
                        ("type"@, JsonView::Str("image_url"@)),
                    ]);
                }
                out.push(obj(members));
            },
            None => {},
        }
    } else {
        let mut note = owned("[Attached PDF: ");
        note.append(name);
        note.append("; select an OpenAI Responses or Anthropic model for native PDF input]");
        out.push(text_part("text", note));
    }
    proof {
        crate::json::lemma_items_view(out@);
        assert(items_view(out@) =~= attachment_parts(protocol@, a@));
    }
    out
}

/// A user turn in the shape `protocol` takes: the text, then each
/// attachment (text files inlined, images and PDFs as the protocol carries
/// them).
pub fn provider_user_content(protocol: &str, text: &str, attachments: &Vec<Json>) -> (r: Json)
    ensures
        r@ == user_content(protocol@, text@, items_view(attachments@)),
{
    let mut out: Vec<Json> = Vec::new();
    if !text.is_empty() {
        out.push(text_part(protocol_text_kind(protocol), owned(text)));
    }
    let ghost head = items_view(out@);
    proof {
        crate::json::lemma_items_view(out@);
        crate::json::lemma_items_view(attachments@);
        assert(head =~= if text@.len() > 0 {
            seq![typed_text(text_kind(protocol@), text@)]
        } else {
            Seq::empty()
        });
    }
    let ghost av = items_view(attachments@);
    let mut i: usize = 0;
    while i < attachments.len()
        invariant
            i <= attachments.len(),
            av == items_view(attachments@),
            av.len() == attachments@.len(),
            forall|x: int| 0 <= x < attachments@.len() ==> #[trigger] av[x] == attachments@[x]@,
            items_view(out@) == head + all_parts(protocol@, av.subrange(0, i as int)),
        decreases attachments.len() - i,
    {
        proof {
            assert(av.subrange(0, i + 1).drop_last() =~= av.subrange(0, i as int));
            assert(av.subrange(0, i + 1).last() == attachments@[i as int]@);
        }
        let mut more = parts_of(protocol, &attachments[i]);
        let ghost before = out@;
        let ghost added = more@;
        out.append(&mut more);
        proof {
            crate::json::lemma_items_view(before);
            crate::json::lemma_items_view(added);
            crate::json::lemma_items_view(out@);
            assert(items_view(out@) =~= items_view(before) + items_view(added));
            assert(items_view(out@) =~= head + all_parts(protocol@, av.subrange(0, i + 1)));
        }
        i = i + 1;
    }
    proof {
        assert(av.subrange(0, attachments@.len() as int) =~= av);
    }
    Json::Array(out)
}

// -- Tool arguments against a schema ----------------------------------------------

/// A value has the JSON-schema type `expected`; an unknown type matches
/// nothing.
pub open spec fn type_matches(expected: Seq<char>, v: JsonView) -> bool {
    if expected == "object"@ {
        v is Object
    } else if expected == "array"@ {
        v is Array
    } else if expected == "string"@ {
        v is Str
    } else if expected == "number"@ {
        v is Number
    } else if expected == "integer"@ {
        v matches JsonView::Number(NumberView::PosInt(_)) || v matches JsonView::Number(NumberView::NegInt(_))
    } else if expected == "boolean"@ {
        v is Bool
    } else if expected == "null"@ {
        v is Null
    } else {
        false
    }
}

pub open spec fn failure_at(path: Seq<char>, what: Seq<char>) -> Seq<char> {
    "tool schema validation failed at "@ + path + ": "@ + what
}

/// The first required key (from position `i` on) the object lacks.
pub open spec fn first_missing(required: Seq<JsonView>, members: Seq<(Seq<char>, JsonView)>, i: int) -> Option<Seq<char>>
    decreases required.len() - i,
{
    if i < 0 || i >= required.len() {
        None
    } else {
        match required[i] {
            JsonView::Str(k) => if lookup(members, k) is None {
                Some(k)
            } else {
                first_missing(required, members, i + 1)
            },
            _ => first_missing(required, members, i + 1),
        }
    }
}

pub open spec fn required_keys(schema: JsonView) -> Seq<JsonView> {
    match schema.get("required"@) {
        Some(JsonView::Array(r)) => r,
        _ => Seq::empty(),
    }
}

/// Why `value` does not satisfy `schema` (at `path`): a value outside the
/// schema's `enum`, a value of another `type`, an object lacking a
/// `required` key or with a member failing its `properties` schema, or an
/// array with an item failing the `items` schema. Members and items are
/// checked in order, and the first failure is reported.
pub open spec fn schema_error(value: JsonView, schema: JsonView, path: Seq<char>) -> Option<Seq<char>>
    decreases value, 0int,
{
    let outside_enum = match schema.get("enum"@) {
        Some(JsonView::Array(allowed)) => !allowed.contains(value),
        _ => false,
    };
    if outside_enum {
        Some(failure_at(path, "value is not allowed"@))
    } else if schema.str_field("type"@) is Some && !type_matches(schema.str_field("type"@).unwrap(), value) {
        Some(failure_at(path, "expected "@ + schema.str_field("type"@).unwrap()))
    } else {
        match value {
            JsonView::Object(members) => match first_missing(required_keys(schema), members, 0) {
                Some(k) => Some(failure_at(path, "missing "@ + k)),
                None => match schema.get("properties"@) {
                    Some(JsonView::Object(props)) => members_error(members, props, path, 0),
                    _ => None,
                },
            },
            JsonView::Array(items) => match schema.get("items"@) {
                Some(JsonView::Object(m)) => items_error(items, JsonView::Object(m), path, 0),
                _ => None,
            },
            _ => None,
        }
    }
}

/// The first failure among the members from position `i` on that have a
/// property schema.
pub open spec fn members_error(
    members: Seq<(Seq<char>, JsonView)>,
    props: Seq<(Seq<char>, JsonView)>,
    path: Seq<char>,
    i: int,
) -> Option<Seq<char>>
    decreases members, members.len() - i,
{
    if i < 0 || i >= members.len() {
        None
    } else {
        match lookup(props, members[i].0) {
            Some(ps) => match schema_error(members[i].1, ps, path + "."@ + members[i].0) {
                Some(e) => Some(e),
                None => members_error(members, props, path, i + 1),
            },
            None => members_error(members, props, path, i + 1),
        }
    }
}

/// The first failure among the items from position `i` on.
pub open spec fn items_error(items: Seq<JsonView>, item_schema: JsonView, path: Seq<char>, i: int) -> Option<Seq<char>>
    decreases items, items.len() - i,
{
    if i < 0 || i >= items.len() {
        None
    } else {
        match schema_error(items[i], item_schema, path + "["@ + decimal_of(i as nat) + "]"@) {
            Some(e) => Some(e),
            None => items_error(items, item_schema, path, i + 1),
        }
    }
}

/// Schema type `number` accepts every JSON number, fractional ones
/// included: a number checked against a schema of that type with no `enum`
/// never fails.
pub proof fn law_number_type_accepts_every_number(n: NumberView, schema: JsonView, path: Seq<char>)
    requires
        schema.get("type"@) == Some(JsonView::Str("number"@)),
        schema.get("enum"@) is None,
    ensures
        type_matches("number"@, JsonView::Number(n)),
        schema_error(JsonView::Number(n), schema, path) is None,
{
    reveal_strlit("number");
    reveal_strlit("object");
    reveal_strlit("array");
    reveal_strlit("string");
    assert("number"@[0] != "object"@[0]);
    assert("number"@.len() != "array"@.len());
    assert("number"@[0] != "string"@[0]);
}

/// Each schema type accepts exactly the values of its JSON kind: `object`
/// objects, `array` arrays, `string` strings, `number` numbers, `boolean`
/// booleans and `null` null.
pub proof fn law_schema_types_accept_their_kind(v: JsonView)
    ensures
        type_matches("object"@, v) <==> v is Object,
        type_matches("array"@, v) <==> v is Array,
        type_matches("string"@, v) <==> v is Str,
        type_matches("number"@, v) <==> v is Number,
        type_matches("boolean"@, v) <==> v is Bool,
        type_matches("null"@, v) <==> v is Null,
{
    reveal_strlit("object");
    reveal_strlit("array");
    reveal_strlit("string");
    reveal_strlit("number");
    reveal_strlit("integer");
    reveal_strlit("boolean");
    reveal_strlit("null");
    assert("array"@.len() == 5 && "object"@.len() == 6 && "string"@.len() == 6);
    assert("number"@.len() == 6 && "integer"@.len() == 7 && "boolean"@.len() == 7);
    assert("null"@.len() == 4);
    assert("object"@[0] != "string"@[0] && "object"@[0] != "number"@[0]);
    assert("string"@[0] != "number"@[0]);
    assert("integer"@[0] != "boolean"@[0]);
}

/// Schema type `integer` accepts exactly the integral numbers: a number
/// checked against a schema of that type with no `enum` passes when it is
/// an integer and fails with `expected integer` when it has a fraction or
/// an exponent.
pub proof fn law_integer_type_accepts_exactly_integers(n: NumberView, schema: JsonView, path: Seq<char>)
    requires
        schema.get("type"@) == Some(JsonView::Str("integer"@)),
        schema.get("enum"@) is None,
    ensures
        type_matches("integer"@, JsonView::Number(n)) <==> !(n is Float),
        !(n is Float) ==> schema_error(JsonView::Number(n), schema, path) is None,
        n is Float ==> schema_error(JsonView::Number(n), schema, path) == Some(
            failure_at(path, "expected integer"@),
        ),
{
    reveal_strlit("integer");
    reveal_strlit("number");
    reveal_strlit("object");
    reveal_strlit("array");
    reveal_strlit("string");
    assert("integer"@.len() != "object"@.len());
    assert("integer"@.len() != "array"@.len());
    assert("integer"@.len() != "string"@.len());
    assert("integer"@.len() != "number"@.len());
    reveal_strlit("expected ");
    reveal_strlit("expected integer");
    assert("expected "@ + "integer"@ =~= "expected integer"@);
}

fn type_matches_exec(expected: &str, v: &Json) -> (r: bool)
    ensures
        r == type_matches(expected@, v@),
{
    if str_eq(expected, "object") {
        match v {
            Json::Object(_) => true,
            _ => false,
        }
    } else if str_eq(expected, "array") {
        match v {
            Json::Array(_) => true,
            _ => false,
        }
    } else if str_eq(expected, "string") {
        match v {
            Json::String(_) => true,
            _ => false,
        }
    } else if str_eq(expected, "number") {
        match v {
            Json::Number(_) => true,
            _ => false,
        }
    } else if str_eq(expected, "integer") {
        match v {
            Json::Number(crate::json::JsonNumber::PosInt(_)) => true,
            Json::Number(crate::json::JsonNumber::NegInt(_)) => true,
            _ => false,
        }
    } else if str_eq(expected, "boolean") {
        match v {
            Json::Bool(_) => true,
            _ => false,
        }
    } else if str_eq(expected, "null") {
        match v {
            Json::Null => true,
            _ => false,
        }
    } else {
        false
    }
}

fn failure(path: &str, what: &str) -> (r: String)
    ensures
        r@ == failure_at(path@, what@),
{
    let mut r = owned("tool schema validation failed at ");
    r.append(path);
    r.append(": ");
    r.append(what);
    r
}

/// Check a value against a tool's schema (the subset the runtime
/// enforces: `enum`, `type`, `required`, `properties` and `items`).
#[verifier::loop_isolation(false)]
pub fn validate_schema_value(value: &Json, schema: &Json, path: &str) -> (r: Result<(), String>)
    ensures
        match schema_error(value@, schema@, path@) {
            Some(e) => r matches Err(x) && x@ == e,
            None => r is Ok,
        },
    decreases value,
{
    match schema.get("enum") {
        Some(Json::Array(allowed)) => {
            proof {
                crate::json::lemma_items_view(allowed@);
            }
            let ghost av = items_view(allowed@);
            let mut found = false;
            let mut i: usize = 0;
            while i < allowed.len()
                invariant
                    i <= allowed.len(),
                    av == items_view(allowed@),
                    av.len() == allowed@.len(),
                    forall|x: int| 0 <= x < allowed@.len() ==> #[trigger] av[x] == allowed@[x]@,
                    found <==> exists|x: int| 0 <= x < i && av[x] == value@,
                decreases allowed.len() - i,
            {
                if allowed[i].same(value) {
                    found = true;
                }
                proof {
                    assert(av[i as int] == allowed@[i as int]@);
                }
                i = i + 1;
            }
            if !found {
                proof {
                    assert(!av.contains(value@));
                }
                return Err(failure(path, "value is not allowed"));
            }
            proof {
                let x = choose|x: int| 0 <= x < av.len() && av[x] == value@;
                assert(av.contains(value@));
            }
        },
        _ => {},
    }
    match schema.str_field("type") {
        Some(t) => {
            if !type_matches_exec(t, value) {
                return Err(failure(path, concat2("expected ", t).as_str()));
            }
        },
        None => {},
    }
    match value {
        Json::Object(members) => {
            proof {
                crate::json::lemma_members_view(members@);
            }
            let ghost mv = members_view(members@);
            match schema.get("required") {
                Some(Json::Array(req)) => {
                    proof {
                        crate::json::lemma_items_view(req@);
                    }
                    let ghost rv = items_view(req@);
                    let mut i: usize = 0;
                    while i < req.len()
                        invariant
                            i <= req.len(),
                            rv == items_view(req@),
                            rv.len() == req@.len(),
                            forall|x: int| 0 <= x < req@.len() ==> #[trigger] rv[x] == req@[x]@,
                            *value == Json::Object(*members),
                            mv == members_view(members@),
                            first_missing(rv, mv, 0) == first_missing(rv, mv, i as int),
                        decreases req.len() - i,
                    {
                        match &req[i] {
                            Json::String(k) => {
                                if value.get(k.as_str()).is_none() {
                                    let mut what = owned("missing ");
                                    what.append(k.as_str());
                                    return Err(failure(path, what.as_str()));
                                }
                            },
                            _ => {},
                        }
                        i = i + 1;
                    }
                },
                _ => {
                    assert(required_keys(schema@) =~= Seq::<JsonView>::empty());
                },
            }
            match schema.get("properties") {
                Some(props) => {
                    match props {
                        Json::Object(pm) => {
                            proof {
                                crate::json::lemma_members_view(pm@);
                            }
                            let ghost pv = members_view(pm@);
                            let mut i: usize = 0;
                            while i < members.len()
                                invariant
                                    i <= members.len(),
                                    *value == Json::Object(*members),
                                    *props == Json::Object(*pm),
                                    mv == members_view(members@),
                                    pv == members_view(pm@),
                                    mv.len() == members@.len(),
                                    forall|x: int| 0 <= x < members@.len() ==> #[trigger] mv[x] == (members@[x].0@, members@[x].1@),
                                    members_error(mv, pv, path@, 0) == members_error(mv, pv, path@, i as int),
                                decreases members.len() - i,
                            {
                                let key = &members[i].0;
                                match props.get(key.as_str()) {
                                    Some(ps) => {
                                        let mut child = owned(path);
                                        child.append(".");
                                        child.append(key.as_str());
                                        proof {
                                            assert(decreases_to!(*value => value->Object_0));
                                            assert(decreases_to!(*members => members@));
                                            assert(decreases_to!(members@ => members@[i as int]));
                                            assert(decreases_to!(members@[i as int] => members@[i as int].1));
                                        }
                                        match validate_schema_value(&members[i].1, ps, child.as_str()) {
                                            Err(e) => {
                                                return Err(e);
                                            },
                                            Ok(()) => {},
                                        }
                                    },
                                    None => {},
                                }
                                i = i + 1;
                            }
                        },
                        _ => {},
                    }
                },
                None => {},
            }
            Ok(())
        },
        Json::Array(items) => {
            match schema.get("items") {
                Some(item_schema) => {
                    if !item_schema.is_object() {
                        return Ok(());
                    }
                    proof {
                        crate::json::lemma_items_view(items@);
                    }
                    let ghost iv = items_view(items@);
                    let mut i: usize = 0;
                    while i < items.len()
                        invariant
                            i <= items.len(),
                            *value == Json::Array(*items),
                            iv == items_view(items@),
                            iv.len() == items@.len(),
                            forall|x: int| 0 <= x < items@.len() ==> #[trigger] iv[x] == items@[x]@,
                            item_schema@ is Object,
                            items_error(iv, item_schema@, path@, 0) == items_error(iv, item_schema@, path@, i as int),
                        decreases items.len() - i,
                    {
                        let mut child = owned(path);
                        child.append("[");
                        child.append(decimal(i as u64).as_str());
                        child.append("]");
                        proof {
                            assert(decreases_to!(*value => value->Array_0));
                            assert(decreases_to!(*items => items@));
                            assert(decreases_to!(items@ => items@[i as int]));
                        }
                        match validate_schema_value(&items[i], item_schema, child.as_str()) {
                            Err(e) => {
                                return Err(e);
                            },
                            Ok(()) => {},
                        }
                        i = i + 1;
                    }
                },
                None => {},
            }
            Ok(())
        },
        _ => Ok(()),
    }
}

} // verus!
