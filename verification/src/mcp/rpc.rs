//! The JSON-RPC exchange with an MCP server, over standard I/O or HTTP.
//!
//! The host moves the bytes; this module builds every message sent, reads
//! every message received, and decides how a stdio server is launched and
//! which headers an HTTP request carries.

use vstd::prelude::*;

use crate::binary64::Binary64;
use crate::capability::abi::{CapabilityExitState, CapabilityResult};
use crate::json::{items_view, members_view, Json, JsonNumber, JsonView, NumberView};
use crate::provider::bodies::lookup_last;
use crate::strmap::{find, StrMap};
use crate::text::{concat2, decimal, decimal_of, names, owned, seq_starts_with, seq_trim, str_eq};

verus! {

/// A line a stdio server wrote, decoded as a JSON-RPC message: the line
/// without surrounding white space, as JSON; `None` when it is not JSON.
pub fn decode_message(line: &str) -> (r: Option<Json>)
    ensures
        crate::decoding::decoded_view(r) == crate::decoding::json_decoding(crate::text::seq_trim(line@)),
{
    let trimmed = crate::text::trim(line);
    crate::decoding::decode_json(trimmed.as_str())
}

/// The MCP protocol revision this client speaks.
pub open spec fn protocol_revision() -> Seq<char> {
    "2025-06-18"@
}

pub fn protocol_version() -> (r: &'static str)
    ensures
        r@ == protocol_revision(),
{
    "2025-06-18"
}

/// A signed integer in decimal.
pub open spec fn signed_decimal_of(i: int) -> Seq<char> {
    if i < 0 {
        "-"@ + decimal_of((-i) as nat)
    } else {
        decimal_of(i as nat)
    }
}

pub fn signed_decimal(i: i64) -> (r: String)
    ensures
        r@ == signed_decimal_of(i as int),
{
    if i < 0 {
        let m: i128 = 0i128 - (i as i128);
        let mut r = owned("-");
        r.append(decimal(m as u64).as_str());
        r
    } else {
        decimal(i as u64)
    }
}

fn object_of(members: Vec<(String, Json)>) -> (r: Json)
    ensures
        r@ == JsonView::Object(members_view(members@)),
{
    Json::Object(members)
}

fn key(s: &str) -> (r: String)
    ensures
        r@ == s@,
{
    owned(s)
}

// -- Errors and replies -----------------------------------------------------------

/// The error a JSON-RPC message carries: `MCP error {code}: {message}`, or
/// the message alone when the code is not an integer; the message defaults
/// to `MCP request failed`.
pub open spec fn rpc_error_of(value: JsonView) -> Option<Seq<char>> {
    match value.get("error"@) {
        None => None,
        Some(e) => {
            let message = match e.str_field("message"@) {
                Some(m) => m,
                None => "MCP request failed"@,
            };
            Some(
                match e.get("code"@) {
                    Some(c) => match c.as_i64() {
                        Some(n) => "MCP error "@ + signed_decimal_of(n as int) + ": "@ + message,
                        None => message,
                    },
                    None => message,
                },
            )
        },
    }
}

pub fn json_rpc_error(value: &Json) -> (r: Option<String>)
    ensures
        match rpc_error_of(value@) {
            Some(m) => r matches Some(x) && x@ == m,
            None => r is None,
        },
{
    let e = match value.get("error") {
        Some(e) => e,
        None => {
            return None;
        },
    };
    let message = match e.str_field("message") {
        Some(m) => owned(m),
        None => owned("MCP request failed"),
    };
    let code = match e.get("code") {
        Some(c) => c.as_i64(),
        None => None,
    };
    match code {
        Some(n) => {
            let mut out = owned("MCP error ");
            out.append(signed_decimal(n).as_str());
            out.append(": ");
            out.append(message.as_str());
            Some(out)
        },
        None => Some(message),
    }
}

/// The message answers request `id`.
pub open spec fn answers(value: JsonView, id: u64) -> bool {
    value.get("id"@) == Some(JsonView::Number(NumberView::PosInt(id)))
}

fn answers_exec(value: &Json, id: u64) -> (r: bool)
    ensures
        r == answers(value@, id),
{
    match value.get("id") {
        Some(Json::Number(JsonNumber::PosInt(n))) => *n == id,
        _ => false,
    }
}

/// What a message that answers a request gives: its error, its `result`,
/// or the complaint that it has neither.
pub open spec fn rpc_outcome(value: JsonView) -> Result<JsonView, Seq<char>> {
    match rpc_error_of(value) {
        Some(e) => Err(e),
        None => match value.get("result"@) {
            Some(r) => Ok(r),
            None => Err("MCP response is missing result"@),
        },
    }
}

pub open spec fn outcome_view(r: Result<Json, String>) -> Result<JsonView, Seq<char>> {
    match r {
        Ok(v) => Ok(v@),
        Err(e) => Err(e@),
    }
}

fn outcome_of(value: &Json) -> (r: Result<Json, String>)
    ensures
        outcome_view(r) == rpc_outcome(value@),
{
    match json_rpc_error(value) {
        Some(e) => Err(e),
        None => match value.get("result") {
            Some(v) => Ok(v.deep_clone()),
            None => Err("MCP response is missing result".to_string()),
        },
    }
}

/// A message read from a stdio server while waiting on request `id`:
/// `None` when it does not answer the request (the wait goes on), else the
/// request's outcome.
pub fn stdio_reply(value: &Json, id: u64) -> (r: Option<Result<Json, String>>)
    ensures
        !answers(value@, id) ==> r is None,
        answers(value@, id) ==> (r matches Some(o) && outcome_view(o) == rpc_outcome(value@)),
{
    if !answers_exec(value, id) {
        return None;
    }
    Some(outcome_of(value))
}

// -- HTTP bodies ----------------------------------------------------------------------

/// `str::lines`: the text split at `\n`; a line that ended in `\n` loses a
/// `\r` before it; a final empty line is not a line.
pub open spec fn pieces(s: Seq<char>) -> Seq<Seq<char>>
    decreases s.len(),
{
    if s.len() == 0 {
        seq![Seq::empty()]
    } else {
        let p = pieces(s.drop_last());
        if s.last() == '\n' {
            p.push(Seq::empty())
        } else {
            p.update(p.len() - 1, p.last().push(s.last()))
        }
    }
}

pub open spec fn strip_cr(s: Seq<char>) -> Seq<char> {
    if s.len() > 0 && s.last() == '\r' {
        s.drop_last()
    } else {
        s
    }
}

pub open spec fn lines_of(s: Seq<char>) -> Seq<Seq<char>> {
    let p = pieces(s);
    let ended = p.drop_last().map_values(|l: Seq<char>| strip_cr(l));
    if p.last().len() == 0 {
        ended
    } else {
        ended.push(p.last())
    }
}

proof fn lemma_pieces_len(s: Seq<char>)
    ensures
        pieces(s).len() >= 1,
    decreases s.len(),
{
    if s.len() > 0 {
        lemma_pieces_len(s.drop_last());
    }
}

/// The texts an HTTP reply body may carry the answer in: the whole body,
/// then the payload of each `data:` line, each trimmed.
pub open spec fn rpc_candidates(body: Seq<char>) -> Seq<Seq<char>> {
    seq![seq_trim(body)] + data_payloads(lines_of(body))
}

pub open spec fn data_payloads(lines: Seq<Seq<char>>) -> Seq<Seq<char>>
    decreases lines.len(),
{
    if lines.len() == 0 {
        Seq::empty()
    } else {
        let rest = data_payloads(lines.drop_last());
        if seq_starts_with(lines.last(), "data:"@) {
            rest.push(seq_trim(lines.last().subrange("data:"@.len() as int, lines.last().len() as int)))
        } else {
            rest
        }
    }
}

fn strip_cr_exec(s: String) -> (r: String)
    ensures
        r@ == strip_cr(s@),
{
    if crate::text::ends_with(s.as_str(), "\r") {
        proof {
            reveal_strlit("\r");
            assert("\r"@.len() == 1);
            assert("\r"@[0] == '\r');
        }
        let v = crate::text::chars_of(s.as_str());
        let r = crate::text::string_from(&v, 0, v.len() - 1);
        assert(r@ =~= strip_cr(s@));
        r
    } else {
        proof {
            reveal_strlit("\r");
            if s@.len() > 0 && s@.last() == '\r' {
                assert(s@.subrange(s@.len() - 1, s@.len() as int) =~= "\r"@);
            }
        }
        s
    }
}

/// The texts an HTTP reply body may carry the answer in, for the host to
/// decode.
pub fn rpc_candidate_texts(body: &str) -> (r: Vec<String>)
    ensures
        names(r@) == rpc_candidates(body@),
{
    let v = crate::text::chars_of(body);
    let mut out: Vec<String> = vec![crate::text::trim(body)];
    let mut ended: Vec<String> = Vec::new();
    let mut current = String::new();
    let mut i: usize = 0;
    proof {
        lemma_pieces_len(body@.subrange(0, 0));
        assert(body@.subrange(0, 0) =~= Seq::<char>::empty());
        assert(names(ended@) =~= Seq::<Seq<char>>::empty());
    }
    while i < v.len()
        invariant
            i <= v.len(),
            v@ == body@,
            pieces(body@.subrange(0, i as int)).len() >= 1,
            names(ended@) == pieces(body@.subrange(0, i as int)).drop_last().map_values(|l: Seq<char>| strip_cr(l)),
            current@ == pieces(body@.subrange(0, i as int)).last(),
        decreases v.len() - i,
    {
        let ghost prefix = body@.subrange(0, i as int);
        proof {
            assert(body@.subrange(0, i + 1).drop_last() =~= prefix);
            assert(body@.subrange(0, i + 1).last() == v@[i as int]);
            lemma_pieces_len(prefix);
        }
        let c = v[i];
        if c == '\n' {
            let line = strip_cr_exec(current);
            let ghost before = ended@;
            ended.push(line);
            current = String::new();
            proof {
                crate::text::lemma_names_push(before, ended@.last());
                assert(before.push(ended@.last()) =~= ended@);
                let p = pieces(prefix);
                assert(pieces(body@.subrange(0, i + 1)) == p.push(Seq::empty()));
                assert(p.push(Seq::<char>::empty()).drop_last() =~= p);
                assert(names(ended@) =~= p.map_values(|l: Seq<char>| strip_cr(l)));
                assert(p =~= p.drop_last().push(p.last()));
                assert(p.map_values(|l: Seq<char>| strip_cr(l)) =~= p.drop_last().map_values(|l: Seq<char>| strip_cr(l)).push(strip_cr(p.last())));
                assert(current@ =~= Seq::<char>::empty());
            }
        } else {
            push_char_to(&mut current, c);
            proof {
                let p = pieces(prefix);
                assert(pieces(body@.subrange(0, i + 1)) == p.update(p.len() - 1, p.last().push(c)));
                assert(p.update(p.len() - 1, p.last().push(c)).drop_last() =~= p.drop_last());
            }
        }
        i = i + 1;
    }
    proof {
        assert(body@.subrange(0, v@.len() as int) =~= body@);
    }
    let mut lines = ended;
    if !current.as_str().is_empty() {
        let ghost before = lines@;
        lines.push(current);
        proof {
            crate::text::lemma_names_push(before, lines@.last());
            assert(before.push(lines@.last()) =~= lines@);
        }
    }
    proof {
        assert(names(lines@) == lines_of(body@));
    }
    let ghost all = names(lines@);
    let mut j: usize = 0;
    proof {
        assert(names(out@) =~= seq![seq_trim(body@)]);
    }
    while j < lines.len()
        invariant
            j <= lines.len(),
            all == names(lines@),
            names(out@) == seq![seq_trim(body@)] + data_payloads(all.subrange(0, j as int)),
        decreases lines.len() - j,
    {
        proof {
            assert(all.subrange(0, j + 1).drop_last() =~= all.subrange(0, j as int));
            assert(all.subrange(0, j + 1).last() == lines@[j as int]@);
        }
        match crate::text::strip_prefix(lines[j].as_str(), "data:") {
            Some(rest) => {
                let ghost before = out@;
                out.push(crate::text::trim(rest.as_str()));
                proof {
                    crate::text::lemma_names_push(before, out@.last());
                    assert(before.push(out@.last()) =~= out@);
                    assert(names(out@) =~= seq![seq_trim(body@)] + data_payloads(all.subrange(0, j + 1)));
                }
            },
            None => {},
        }
        j = j + 1;
    }
    proof {
        assert(all.subrange(0, lines@.len() as int) =~= all);
    }
    out
}

fn push_char_to(s: &mut String, c: char)
    ensures
        final(s)@ == old(s)@.push(c),
{
    crate::text::push_char(s, c);
}

pub open spec fn decoded_view(d: Option<Json>) -> Option<JsonView> {
    match d {
        Some(v) => Some(v@),
        None => None,
    }
}

/// The first candidate that decoded and answers request `id`.
pub open spec fn first_answer(decoded: Seq<Option<JsonView>>, id: u64) -> Option<JsonView>
    decreases decoded.len(),
{
    if decoded.len() == 0 {
        None
    } else {
        match decoded[0] {
            Some(v) => if answers(v, id) {
                Some(v)
            } else {
                first_answer(decoded.drop_first(), id)
            },
            None => first_answer(decoded.drop_first(), id),
        }
    }
}

/// The outcome of request `id` over HTTP, given what each candidate text
/// decoded to.
pub open spec fn http_outcome(decoded: Seq<Option<JsonView>>, id: u64) -> Result<JsonView, Seq<char>> {
    match first_answer(decoded, id) {
        None => Err("MCP response did not contain the matching JSON-RPC result"@),
        Some(v) => rpc_outcome(v),
    }
}

/// The outcome of request `id`, given the candidate texts of the reply
/// body as decoded (in `rpc_candidate_texts` order).
pub fn parse_rpc_payload(decoded: &Vec<Option<Json>>, id: u64) -> (r: Result<Json, String>)
    ensures
        outcome_view(r) == http_outcome(decoded@.map_values(|d: Option<Json>| decoded_view(d)), id),
{
    let ghost dv = decoded@.map_values(|d: Option<Json>| decoded_view(d));
    proof {
        assert(dv.subrange(0, dv.len() as int) =~= dv);
    }
    let mut i: usize = 0;
    while i < decoded.len()
        invariant
            i <= decoded.len(),
            dv == decoded@.map_values(|d: Option<Json>| decoded_view(d)),
            first_answer(dv, id) == first_answer(dv.subrange(i as int, dv.len() as int), id),
        decreases decoded.len() - i,
    {
        proof {
            assert(dv.subrange(i as int, dv.len() as int).drop_first() =~= dv.subrange(i + 1, dv.len() as int));
        }
        match &decoded[i] {
            Some(v) => {
                if answers_exec(v, id) {
                    return outcome_of(v);
                }
            },
            None => {},
        }
        i = i + 1;
    }
    Err("MCP response did not contain the matching JSON-RPC result".to_string())
}

// -- Messages sent ------------------------------------------------------------------

pub open spec fn request_view(id: u64, method: Seq<char>, params: JsonView) -> JsonView {
    JsonView::Object(
        seq![
            ("id"@, JsonView::Number(NumberView::PosInt(id))),
            ("jsonrpc"@, JsonView::Str("2.0"@)),
            ("method"@, JsonView::Str(method)),
            ("params"@, params),
        ],
    )
}

/// `{"jsonrpc": "2.0", "id": …, "method": …, "params": …}`.
pub fn rpc_request(id: u64, method: &str, params: Json) -> (r: Json)
    ensures
        r@ == request_view(id, method@, params@),
{
    let ghost pv = params@;
    let members = vec![
        (key("id"), Json::Number(JsonNumber::PosInt(id))),
        (key("jsonrpc"), Json::String(key("2.0"))),
        (key("method"), Json::String(owned(method))),
        (key("params"), params),
    ];
    proof {
        crate::json::lemma_members_view(members@);
        assert(members_view(members@) =~= request_view(id, method@, pv)->Object_0);
    }
    object_of(members)
}

pub open spec fn notification_view(method: Seq<char>, params: JsonView) -> JsonView {
    JsonView::Object(
        seq![("jsonrpc"@, JsonView::Str("2.0"@)), ("method"@, JsonView::Str(method)), ("params"@, params)],
    )
}

/// `{"jsonrpc": "2.0", "method": …, "params": …}`.
pub fn rpc_notification(method: &str, params: Json) -> (r: Json)
    ensures
        r@ == notification_view(method@, params@),
{
    let ghost pv = params@;
    let members = vec![
        (key("jsonrpc"), Json::String(key("2.0"))),
        (key("method"), Json::String(owned(method))),
        (key("params"), params),
    ];
    proof {
        crate::json::lemma_members_view(members@);
        assert(members_view(members@) =~= notification_view(method@, pv)->Object_0);
    }
    object_of(members)
}

pub open spec fn empty_object() -> JsonView {
    JsonView::Object(Seq::empty())
}

fn empty_object_json() -> (r: Json)
    ensures
        r@ == empty_object(),
{
    let members: Vec<(String, Json)> = Vec::new();
    proof {
        crate::json::lemma_members_view(members@);
        assert(members_view(members@) =~= Seq::<(Seq<char>, JsonView)>::empty());
    }
    Json::Object(members)
}

/// The parameters of `initialize`.
pub open spec fn initialize_params_view() -> JsonView {
    JsonView::Object(
        seq![
            ("capabilities"@, JsonView::Object(seq![("roots"@, JsonView::Object(seq![("listChanged"@, JsonView::Bool(false))]))])),
            ("clientInfo"@, JsonView::Object(seq![("name"@, JsonView::Str("Delta"@)), ("version"@, JsonView::Str("0.1.0"@))])),
            ("protocolVersion"@, JsonView::Str(protocol_revision())),
        ],
    )
}

pub fn initialize_params() -> (r: Json)
    ensures
        r@ == initialize_params_view(),
{
    let changed = vec![(key("listChanged"), Json::Bool(false))];
    let roots = vec![(key("roots"), object_of(changed))];
    let info = vec![(key("name"), Json::String(key("Delta"))), (key("version"), Json::String(key("0.1.0")))];
    let members = vec![
        (key("capabilities"), object_of(roots)),
        (key("clientInfo"), object_of(info)),
        (key("protocolVersion"), Json::String(owned(protocol_version()))),
    ];
    proof {
        crate::json::lemma_members_view(changed@);
        crate::json::lemma_members_view(roots@);
        crate::json::lemma_members_view(info@);
        crate::json::lemma_members_view(members@);
        assert(members_view(changed@) =~= seq![("listChanged"@, JsonView::Bool(false))]);
        assert(members_view(roots@) =~= seq![("roots"@, JsonView::Object(members_view(changed@)))]);
        assert(members_view(info@) =~= seq![("name"@, JsonView::Str("Delta"@)), ("version"@, JsonView::Str("0.1.0"@))]);
        assert(members_view(members@) =~= initialize_params_view()->Object_0);
    }
    object_of(members)
}

/// The reply to `initialize` must name the protocol version.
pub fn check_initialized(result: &Json) -> (r: Result<(), String>)
    ensures
        r is Ok <==> result@.str_field("protocolVersion"@) is Some,
        r matches Err(e) ==> e@ == "MCP initialize response missing protocolVersion"@,
{
    match result.str_field("protocolVersion") {
        Some(_) => Ok(()),
        None => Err("MCP initialize response missing protocolVersion".to_string()),
    }
}

/// The answer to a request the server sends the client, when `value` is one
/// (it has an id and a method): `ping` and `roots/list` are answered, any
/// other method is refused as not supported.
pub open spec fn server_request_reply(value: JsonView) -> Option<JsonView> {
    match (value.get("id"@), value.str_field("method"@)) {
        (Some(id), Some(method)) => Some(
            if method == "ping"@ {
                JsonView::Object(seq![("id"@, id), ("jsonrpc"@, JsonView::Str("2.0"@)), ("result"@, empty_object())])
            } else if method == "roots/list"@ {
                JsonView::Object(
                    seq![
                        ("id"@, id),
                        ("jsonrpc"@, JsonView::Str("2.0"@)),
                        ("result"@, JsonView::Object(seq![("roots"@, JsonView::Array(Seq::empty()))])),
                    ],
                )
            } else {
                JsonView::Object(
                    seq![
                        ("error"@, JsonView::Object(seq![
                            ("code"@, JsonView::Number(NumberView::NegInt(-32601i64))),
                            ("message"@, JsonView::Str("Client method not supported"@)),
                        ])),
                        ("id"@, id),
                        ("jsonrpc"@, JsonView::Str("2.0"@)),
                    ],
                )
            },
        ),
        _ => None,
    }
}

pub fn respond_server_request(value: &Json) -> (r: Option<Json>)
    ensures
        match server_request_reply(value@) {
            Some(v) => r matches Some(x) && x@ == v,
            None => r is None,
        },
{
    let id = match value.get("id") {
        Some(id) => id.deep_clone(),
        None => {
            return None;
        },
    };
    let method = match value.str_field("method") {
        Some(m) => m,
        None => {
            return None;
        },
    };
    let ghost idv = id@;
    if str_eq(method, "ping") {
        let members = vec![(key("id"), id), (key("jsonrpc"), Json::String(key("2.0"))), (key("result"), empty_object_json())];
        proof {
            crate::json::lemma_members_view(members@);
            assert(members_view(members@) =~= seq![("id"@, idv), ("jsonrpc"@, JsonView::Str("2.0"@)), ("result"@, empty_object())]);
        }
        Some(object_of(members))
    } else if str_eq(method, "roots/list") {
        let none: Vec<Json> = Vec::new();
        let roots = vec![(key("roots"), Json::Array(none))];
        let members = vec![(key("id"), id), (key("jsonrpc"), Json::String(key("2.0"))), (key("result"), object_of(roots))];
        proof {
            crate::json::lemma_items_view(none@);
            assert(items_view(none@) =~= Seq::<JsonView>::empty());
            crate::json::lemma_members_view(roots@);
            crate::json::lemma_members_view(members@);
            assert(members_view(roots@) =~= seq![("roots"@, JsonView::Array(Seq::empty()))]);
            assert(members_view(members@) =~= seq![
                ("id"@, idv),
                ("jsonrpc"@, JsonView::Str("2.0"@)),
                ("result"@, JsonView::Object(seq![("roots"@, JsonView::Array(Seq::empty()))])),
            ]);
        }
        Some(object_of(members))
    } else {
        let error = vec![
            (key("code"), Json::Number(JsonNumber::NegInt(-32601))),
            (key("message"), Json::String(key("Client method not supported"))),
        ];
        let members = vec![(key("error"), object_of(error)), (key("id"), id), (key("jsonrpc"), Json::String(key("2.0")))];
        proof {
            crate::json::lemma_members_view(error@);
            crate::json::lemma_members_view(members@);
            assert(members_view(error@) =~= seq![
                ("code"@, JsonView::Number(NumberView::NegInt(-32601i64))),
                ("message"@, JsonView::Str("Client method not supported"@)),
            ]);
            assert(members_view(members@) =~= server_request_reply(value@).unwrap()->Object_0);
        }
        Some(object_of(members))
    }
}

/// The error of a request that timed out.
pub fn request_timeout_error(method: &str) -> (r: String)
    ensures
        r@ == "MCP request timed out: "@ + method@,
{
    concat2("MCP request timed out: ", method)
}

/// The lines joined by `sep`.
pub open spec fn joined_by(parts: Seq<Seq<char>>, sep: Seq<char>) -> Seq<char>
    decreases parts.len(),
{
    if parts.len() == 0 {
        Seq::empty()
    } else if parts.len() == 1 {
        parts[0]
    } else {
        joined_by(parts.drop_last(), sep) + sep + parts.last()
    }
}

/// The error of a request whose stdio server exited, with what it wrote to
/// standard error.
pub fn server_exit_error(stderr: &Vec<String>) -> (r: String)
    ensures
        r@ == if stderr@.len() == 0 {
            "MCP server exited"@
        } else {
            "MCP server exited: "@ + joined_by(names(stderr@), " | "@)
        },
{
    if stderr.len() == 0 {
        return owned("MCP server exited");
    }
    let ghost ps = names(stderr@);
    let mut out = owned("MCP server exited: ");
    let ghost head = out@;
    let mut i: usize = 0;
    while i < stderr.len()
        invariant
            i <= stderr.len(),
            ps == names(stderr@),
            out@ == head + joined_by(ps.subrange(0, i as int), " | "@),
        decreases stderr.len() - i,
    {
        proof {
            assert(ps.subrange(0, i + 1).drop_last() =~= ps.subrange(0, i as int));
        }
        if i > 0 {
            out.append(" | ");
        }
        out.append(stderr[i].as_str());
        proof {
            if i == 0 {
                assert(joined_by(ps.subrange(0, 1), " | "@) == ps[0]);
                assert(joined_by(ps.subrange(0, 0), " | "@) =~= Seq::<char>::empty());
            }
            assert(out@ =~= head + joined_by(ps.subrange(0, i + 1), " | "@));
        }
        i = i + 1;
    }
    proof {
        assert(ps.subrange(0, stderr@.len() as int) =~= ps);
    }
    out
}

// -- Tool listing -----------------------------------------------------------------

/// The tools of a server, fetched page by page.
#[derive(Debug)]
pub struct ToolPager {
    pub tools: Vec<Json>,
    pub cursor: Option<String>,
}

/// The tools a `tools/list` page adds.
pub open spec fn page_tools(result: JsonView) -> Seq<JsonView> {
    match result.get("tools"@) {
        Some(JsonView::Array(t)) => t,
        _ => Seq::empty(),
    }
}

/// The cursor of the next page: a non-empty `nextCursor`.
pub open spec fn next_cursor(result: JsonView) -> Option<Seq<char>> {
    match result.str_field("nextCursor"@) {
        Some(c) => if c.len() > 0 {
            Some(c)
        } else {
            None
        },
        None => None,
    }
}

impl ToolPager {
    pub fn new() -> (p: Self)
        ensures
            p.tools@.len() == 0,
            p.cursor is None,
    {
        ToolPager { tools: Vec::new(), cursor: None }
    }

    /// The parameters of the next `tools/list` request.
    pub fn params(&self) -> (r: Json)
        ensures
            r@ == match self.cursor {
                Some(c) => JsonView::Object(seq![("cursor"@, JsonView::Str(c@))]),
                None => empty_object(),
            },
    {
        match &self.cursor {
            Some(c) => {
                let members = vec![(key("cursor"), Json::String(c.clone()))];
                proof {
                    crate::json::lemma_members_view(members@);
                    assert(members_view(members@) =~= seq![("cursor"@, JsonView::Str(c@))]);
                }
                object_of(members)
            },
            None => empty_object_json(),
        }
    }

    /// Take in one page; answers whether another page follows.
    pub fn absorb(&mut self, result: &Json) -> (more: bool)
        ensures
            items_view(final(self).tools@) == items_view(old(self).tools@) + page_tools(result@),
            text_opt(final(self).cursor) == next_cursor(result@),
            more == (next_cursor(result@) is Some),
    {
        let ghost before = self.tools@;
        proof {
            crate::json::lemma_items_view(before);
        }
        match result.get("tools") {
            Some(Json::Array(items)) => {
                let mut more_items = crate::json::clone_items(items);
                let ghost added = more_items@;
                self.tools.append(&mut more_items);
                proof {
                    crate::json::lemma_items_view(added);
                    crate::json::lemma_items_view(self.tools@);
                    assert(items_view(self.tools@) =~= items_view(before) + items_view(added));
                }
            },
            _ => {
                assert(items_view(before) + page_tools(result@) =~= items_view(before));
            },
        }
        self.cursor = match result.str_field("nextCursor") {
            Some(c) => if !c.is_empty() {
                Some(owned(c))
            } else {
                None
            },
            None => None,
        };
        self.cursor.is_some()
    }
}

pub open spec fn text_opt(o: Option<String>) -> Option<Seq<char>> {
    match o {
        Some(s) => Some(s@),
        None => None,
    }
}

// -- Launching a stdio server ---------------------------------------------------------

/// The variables a stdio server inherits when they are set.
pub open spec fn stdio_inherited(k: Seq<char>) -> bool {
    ||| k == "PATH"@
    ||| k == "HOME"@
    ||| k == "USERPROFILE"@
    ||| k == "APPDATA"@
    ||| k == "LOCALAPPDATA"@
    ||| k == "SystemRoot"@
    ||| k == "WINDIR"@
    ||| k == "TEMP"@
    ||| k == "TMP"@
}

/// The names of the inherited variables, for the host to read.
pub fn stdio_inherited_names() -> (r: Vec<String>)
    ensures
        forall|k: Seq<char>| stdio_inherited(k) <==> names(r@).contains(k),
{
    let r = vec![
        key("PATH"),
        key("HOME"),
        key("USERPROFILE"),
        key("APPDATA"),
        key("LOCALAPPDATA"),
        key("SystemRoot"),
        key("WINDIR"),
        key("TEMP"),
        key("TMP"),
    ];
    proof {
        let n = names(r@);
        assert(n =~= seq!["PATH"@, "HOME"@, "USERPROFILE"@, "APPDATA"@, "LOCALAPPDATA"@, "SystemRoot"@, "WINDIR"@, "TEMP"@, "TMP"@]);
        assert forall|k: Seq<char>| stdio_inherited(k) <==> n.contains(k) by {
            if stdio_inherited(k) {
                if k == "PATH"@ { assert(n[0] == k); }
                else if k == "HOME"@ { assert(n[1] == k); }
                else if k == "USERPROFILE"@ { assert(n[2] == k); }
                else if k == "APPDATA"@ { assert(n[3] == k); }
                else if k == "LOCALAPPDATA"@ { assert(n[4] == k); }
                else if k == "SystemRoot"@ { assert(n[5] == k); }
                else if k == "WINDIR"@ { assert(n[6] == k); }
                else if k == "TEMP"@ { assert(n[7] == k); }
                else { assert(n[8] == k); }
            }
        }
    }
    r
}

/// How a stdio server is started.
#[derive(Debug)]
pub struct StdioLaunch {
    pub command: String,
    pub args: Vec<String>,
    /// The complete environment: nothing else is inherited.
    pub env: StrMap<String>,
    pub cwd: Option<String>,
}

/// The string arguments of `args`, in order; others are skipped.
pub open spec fn string_items(items: Seq<JsonView>) -> Seq<Seq<char>>
    decreases items.len(),
{
    if items.len() == 0 {
        Seq::empty()
    } else {
        let rest = string_items(items.drop_last());
        match items.last() {
            JsonView::Str(s) => rest.push(s),
            _ => rest,
        }
    }
}

/// The last string value the config's `env` gives `k`.
pub open spec fn env_override(members: Seq<(Seq<char>, JsonView)>, k: Seq<char>) -> Option<Seq<char>>
    decreases members.len(),
{
    if members.len() == 0 {
        None
    } else if members.last().0 == k && members.last().1 is Str {
        Some(members.last().1->Str_0)
    } else {
        env_override(members.drop_last(), k)
    }
}

pub open spec fn env_members(config: JsonView) -> Seq<(Seq<char>, JsonView)> {
    match config.get("env"@) {
        Some(JsonView::Object(m)) => m,
        _ => Seq::empty(),
    }
}

pub open spec fn text_at(m: Seq<(Seq<char>, String)>, k: Seq<char>) -> Option<Seq<char>> {
    match find(m, k) {
        Some(v) => Some(v@),
        None => None,
    }
}

/// The launch of a stdio server: its `command` must not be blank; its
/// string `args`; the inherited variables that are set (`inherited`),
/// overridden by the config's string `env` values; its `cwd`.
pub fn stdio_launch(config: &Json, inherited: &StrMap<String>) -> (r: Result<StdioLaunch, String>)
    ensures
        match config@.str_field("command"@) {
            Some(c) => seq_trim(c).len() > 0,
            None => false,
        } <==> r is Ok,
        r matches Err(e) ==> e@ == "stdio MCP requires command"@,
        r matches Ok(l) ==> {
            &&& Some(l.command@) == config@.str_field("command"@)
            &&& names(l.args@) == match config@.get("args"@) {
                Some(JsonView::Array(items)) => string_items(items),
                _ => Seq::empty(),
            }
            &&& forall|k: Seq<char>| #![trigger text_at(l.env@, k)]
                text_at(l.env@, k) == match env_override(env_members(config@), k) {
                    Some(v) => Some(v),
                    None => if stdio_inherited(k) {
                        text_at(inherited@, k)
                    } else {
                        None
                    },
                }
            &&& text_opt(l.cwd) == config@.str_field("cwd"@)
        },
{
    let command = match config.str_field("command") {
        Some(c) => {
            if crate::text::trim(c).as_str().is_empty() {
                return Err("stdio MCP requires command".to_string());
            }
            owned(c)
        },
        None => {
            return Err("stdio MCP requires command".to_string());
        },
    };
    let mut args: Vec<String> = Vec::new();
    match config.get("args") {
        Some(Json::Array(items)) => {
            proof {
                crate::json::lemma_items_view(items@);
            }
            let ghost iv = items_view(items@);
            let mut i: usize = 0;
            proof {
                assert(names(args@) =~= Seq::<Seq<char>>::empty());
            }
            while i < items.len()
                invariant
                    i <= items.len(),
                    iv == items_view(items@),
                    iv.len() == items@.len(),
                    forall|x: int| 0 <= x < items@.len() ==> #[trigger] iv[x] == items@[x]@,
                    names(args@) == string_items(iv.subrange(0, i as int)),
                decreases items.len() - i,
            {
                proof {
                    assert(iv.subrange(0, i + 1).drop_last() =~= iv.subrange(0, i as int));
                    assert(iv.subrange(0, i + 1).last() == items@[i as int]@);
                }
                match &items[i] {
                    Json::String(s) => {
                        let ghost before = args@;
                        args.push(s.clone());
                        proof {
                            crate::text::lemma_names_push(before, args@.last());
                            assert(before.push(args@.last()) =~= args@);
                        }
                    },
                    _ => {},
                }
                i = i + 1;
            }
            proof {
                assert(iv.subrange(0, items@.len() as int) =~= iv);
            }
        },
        _ => {
            assert(names(args@) =~= Seq::<Seq<char>>::empty());
        },
    }
    let mut env: StrMap<String> = StrMap::new();
    let inherited_names = stdio_inherited_names();
    let mut i: usize = 0;
    while i < inherited_names.len()
        invariant
            i <= inherited_names.len(),
            forall|k: Seq<char>| stdio_inherited(k) <==> names(inherited_names@).contains(k),
            forall|k: Seq<char>| #![trigger text_at(env@, k)]
                text_at(env@, k) == if names(inherited_names@).subrange(0, i as int).contains(k) {
                    text_at(inherited@, k)
                } else {
                    None
                },
        decreases inherited_names.len() - i,
    {
        let name = &inherited_names[i];
        let ghost prefix = names(inherited_names@).subrange(0, i as int);
        proof {
            assert(names(inherited_names@)[i as int] == name@);
            assert(names(inherited_names@).subrange(0, i + 1) =~= prefix.push(name@));
        }
        let ghost before = env@;
        match inherited.get(name.as_str()) {
            Some(value) => {
                env.insert(name.clone(), value.clone());
            },
            None => {},
        }
        proof {
            assert forall|k: Seq<char>| #![trigger text_at(env@, k)]
                text_at(env@, k) == if prefix.push(name@).contains(k) {
                    text_at(inherited@, k)
                } else {
                    None
                } by {
                assert(text_at(before, k) == text_at(before, k));
                if k == name@ {
                    assert(prefix.push(name@)[prefix.len() as int] == k);
                } else {
                    if prefix.push(name@).contains(k) {
                        let j = choose|j: int| 0 <= j < prefix.push(name@).len() && prefix.push(name@)[j] == k;
                        assert(prefix[j] == k);
                    }
                    if prefix.contains(k) {
                        let j = choose|j: int| 0 <= j < prefix.len() && prefix[j] == k;
                        assert(prefix.push(name@)[j] == k);
                    }
                }
            }
        }
        i = i + 1;
    }
    proof {
        assert(names(inherited_names@).subrange(0, inherited_names@.len() as int) =~= names(inherited_names@));
    }
    match config.get("env") {
        Some(Json::Object(members)) => {
            proof {
                crate::json::lemma_members_view(members@);
            }
            let ghost mv = members_view(members@);
            let ghost start = env@;
            let mut j: usize = 0;
            while j < members.len()
                invariant
                    j <= members.len(),
                    mv == members_view(members@),
                    mv.len() == members@.len(),
                    forall|x: int| 0 <= x < members@.len() ==> #[trigger] mv[x] == (members@[x].0@, members@[x].1@),
                    forall|k: Seq<char>| #![trigger text_at(env@, k)]
                        text_at(env@, k) == match env_override(mv.subrange(0, j as int), k) {
                            Some(v) => Some(v),
                            None => text_at(start, k),
                        },
                decreases members.len() - j,
            {
                proof {
                    assert(mv.subrange(0, j + 1).drop_last() =~= mv.subrange(0, j as int));
                    assert(mv.subrange(0, j + 1).last() == mv[j as int]);
                }
                let ghost before = env@;
                match &members[j].1 {
                    Json::String(v) => {
                        env.insert(members[j].0.clone(), v.clone());
                    },
                    _ => {},
                }
                proof {
                    assert forall|k: Seq<char>| #![trigger text_at(env@, k)]
                        text_at(env@, k) == match env_override(mv.subrange(0, j + 1), k) {
                            Some(v) => Some(v),
                            None => text_at(start, k),
                        } by {
                        assert(text_at(before, k) == text_at(before, k));
                    }
                }
                j = j + 1;
            }
            proof {
                assert(mv.subrange(0, members@.len() as int) =~= mv);
            }
        },
        _ => {},
    }
    let cwd = match config.str_field("cwd") {
        Some(c) => Some(owned(c)),
        None => None,
    };
    Ok(StdioLaunch { command, args, env, cwd })
}

// -- HTTP ---------------------------------------------------------------------------

/// Whether a server is reached over HTTP: its config has a `url`, or a
/// `type` of `http`, `https` or `streamable-http`.
pub open spec fn uses_http(config: JsonView) -> bool {
    config.get("url"@) is Some || match config.str_field("type"@) {
        Some(t) => t == "http"@ || t == "https"@ || t == "streamable-http"@,
        None => false,
    }
}

pub fn is_http_server(config: &Json) -> (r: bool)
    ensures
        r == uses_http(config@),
{
    if config.get("url").is_some() {
        return true;
    }
    match config.str_field("type") {
        Some(t) => str_eq(t, "http") || str_eq(t, "https") || str_eq(t, "streamable-http"),
        None => false,
    }
}

/// The URL of an HTTP server.
pub fn http_url(config: &Json) -> (r: Result<String, String>)
    ensures
        match config@.str_field("url"@) {
            Some(u) => r matches Ok(x) && x@ == u,
            None => r matches Err(e) && e@ == "HTTP MCP requires an http(s) URL"@,
        },
{
    match config.str_field("url") {
        Some(u) => Ok(owned(u)),
        None => Err("HTTP MCP requires an http(s) URL".to_string()),
    }
}

pub open spec fn header_members(config: JsonView) -> Option<Seq<(Seq<char>, JsonView)>> {
    match config.get("headers"@) {
        Some(JsonView::Object(m)) => Some(m),
        _ => None,
    }
}

/// An OAuth server without an `Authorization` header has no token yet.
pub open spec fn lacks_token(config: JsonView) -> bool {
    config.str_field("auth"@) == Some("oauth"@) && match header_members(config) {
        Some(m) => match crate::json::lookup(m, "Authorization"@) {
            Some(v) => v.as_str() is None,
            None => true,
        },
        None => true,
    }
}

/// The value the config's `headers` give `k`: the last string value of a
/// header not named `Host` (in any case).
pub open spec fn header_value(members: Seq<(Seq<char>, JsonView)>, k: Seq<char>) -> Option<Seq<char>>
    decreases members.len(),
{
    if members.len() == 0 {
        None
    } else if members.last().0 == k && members.last().1 is Str && !crate::mcp::same_ignoring_ascii_case(
        k,
        "host"@,
    ) {
        Some(members.last().1->Str_0)
    } else {
        header_value(members.drop_last(), k)
    }
}

/// The custom headers of an HTTP server; an OAuth server must already
/// carry its token.
pub fn http_headers(config: &Json) -> (r: Result<StrMap<String>, String>)
    ensures
        lacks_token(config@) <==> r is Err,
        r matches Err(e) ==> e@ == "MCP OAuth requires an access token before connecting"@,
        r matches Ok(h) ==> forall|k: Seq<char>| #![trigger text_at(h@, k)]
            text_at(h@, k) == match header_members(config@) {
                Some(m) => header_value(m, k),
                None => None,
            },
{
    let oauth = match config.str_field("auth") {
        Some(a) => str_eq(a, "oauth"),
        None => false,
    };
    let token = match config.get("headers") {
        Some(Json::Object(_)) => match config.get("headers") {
            Some(h) => match h.get("Authorization") {
                Some(v) => v.as_str().is_some(),
                None => false,
            },
            None => false,
        },
        _ => false,
    };
    if oauth && !token {
        return Err("MCP OAuth requires an access token before connecting".to_string());
    }
    let mut headers: StrMap<String> = StrMap::new();
    match config.get("headers") {
        Some(Json::Object(members)) => {
            proof {
                crate::json::lemma_members_view(members@);
            }
            let ghost mv = members_view(members@);
            let mut j: usize = 0;
            while j < members.len()
                invariant
                    j <= members.len(),
                    mv == members_view(members@),
                    mv.len() == members@.len(),
                    forall|x: int| 0 <= x < members@.len() ==> #[trigger] mv[x] == (members@[x].0@, members@[x].1@),
                    forall|k: Seq<char>| #![trigger text_at(headers@, k)]
                        text_at(headers@, k) == header_value(mv.subrange(0, j as int), k),
                decreases members.len() - j,
            {
                proof {
                    assert(mv.subrange(0, j + 1).drop_last() =~= mv.subrange(0, j as int));
                    assert(mv.subrange(0, j + 1).last() == mv[j as int]);
                }
                let ghost before = headers@;
                let name = &members[j].0;
                match &members[j].1 {
                    Json::String(v) => {
                        if !crate::mcp::eq_ignore_ascii_case(name.as_str(), "host") {
                            headers.insert(name.clone(), v.clone());
                        }
                    },
                    _ => {},
                }
                proof {
                    assert forall|k: Seq<char>| #![trigger text_at(headers@, k)]
                        text_at(headers@, k) == header_value(mv.subrange(0, j + 1), k) by {
                        assert(text_at(before, k) == text_at(before, k));
                    }
                }
                j = j + 1;
            }
            proof {
                assert(mv.subrange(0, members@.len() as int) =~= mv);
            }
        },
        _ => {
            assert forall|k: Seq<char>| #![trigger text_at(headers@, k)] text_at(headers@, k) == None::<Seq<char>> by {
                crate::strmap::lemma_find_none(headers@, k);
            }
        },
    }
    Ok(headers)
}

/// Whether the connection is made over TLS, pinned to the checked host.
pub fn uses_tls(url: &str) -> (r: bool)
    ensures
        r == seq_starts_with(url@, "https://"@),
{
    crate::text::starts_with(url, "https://")
}

/// The headers an MCP HTTP request sets, in the order they are set (a
/// later one replaces an earlier one of the same name): the accepted and
/// sent media types, the custom headers in name order, the pinned `Host`,
/// then the session id and protocol version once the server gave them.
pub fn request_headers(
    custom: &StrMap<String>,
    host_header: &str,
    session_id: Option<&str>,
    protocol: Option<&str>,
) -> (r: Vec<(String, String)>)
    ensures
        r@.map_values(|p: (String, String)| (p.0@, p.1@)) == seq![
            ("Accept"@, "application/json, text/event-stream"@),
            ("Content-Type"@, "application/json"@),
        ] + custom@.map_values(|p: (Seq<char>, String)| (p.0, p.1@)) + seq![("Host"@, host_header@)] + (match session_id {
            Some(s) => seq![("Mcp-Session-Id"@, s@)],
            None => Seq::empty(),
        }) + (match protocol {
            Some(p) => seq![("MCP-Protocol-Version"@, p@)],
            None => Seq::empty(),
        }),
{
    let mut r: Vec<(String, String)> = vec![
        (key("Accept"), key("application/json, text/event-stream")),
        (key("Content-Type"), key("application/json")),
    ];
    let ghost head = r@.map_values(|p: (String, String)| (p.0@, p.1@));
    proof {
        assert(head =~= seq![("Accept"@, "application/json, text/event-stream"@), ("Content-Type"@, "application/json"@)]);
    }
    let ghost cv = custom@.map_values(|p: (Seq<char>, String)| (p.0, p.1@));
    let n = custom.len();
    let mut i: usize = 0;
    while i < n
        invariant
            i <= n == custom@.len(),
            cv == custom@.map_values(|p: (Seq<char>, String)| (p.0, p.1@)),
            r@.map_values(|p: (String, String)| (p.0@, p.1@)) == head + cv.subrange(0, i as int),
        decreases n - i,
    {
        let (k, v) = custom.entry(i);
        let ghost before = r@;
        r.push((k.clone(), v.clone()));
        proof {
            assert(r@.map_values(|p: (String, String)| (p.0@, p.1@)) =~= before.map_values(|p: (String, String)| (p.0@, p.1@)).push((k@, v@)));
            assert(cv.subrange(0, i + 1) =~= cv.subrange(0, i as int).push(cv[i as int]));
        }
        i = i + 1;
    }
    proof {
        assert(cv.subrange(0, n as int) =~= cv);
    }
    let ghost mid = r@;
    r.push((key("Host"), owned(host_header)));
    let ghost after_host = r@;
    match session_id {
        Some(s) => {
            r.push((key("Mcp-Session-Id"), owned(s)));
        },
        None => {},
    }
    let ghost after_session = r@;
    match protocol {
        Some(p) => {
            r.push((key("MCP-Protocol-Version"), owned(p)));
        },
        None => {},
    }
    proof {
        let f = |p: (String, String)| (p.0@, p.1@);
        assert(after_host.map_values(f) =~= mid.map_values(f).push(("Host"@, host_header@)));
        assert(after_session.map_values(f) =~= after_host.map_values(f) + match session_id {
            Some(s) => seq![("Mcp-Session-Id"@, s@)],
            None => Seq::empty(),
        });
        assert(r@.map_values(f) =~= after_session.map_values(f) + match protocol {
            Some(p) => seq![("MCP-Protocol-Version"@, p@)],
            None => Seq::empty(),
        });
    }
    r
}

/// Why an HTTP exchange failed.
#[derive(Debug)]
pub enum HttpFault {
    /// The server answered with this status and body.
    Status(u16, String),
    /// The connection failed; the transport's error.
    Transport(String),
    /// The reply body could not be read; the error.
    Read(String),
}

pub open spec fn http_fault_message(f: HttpFault) -> Seq<char> {
    match f {
        HttpFault::Status(code, body) => "MCP HTTP "@ + decimal_of(code as nat) + ": "@ + body@,
        HttpFault::Transport(e) => "MCP HTTP transport: "@ + e@,
        HttpFault::Read(e) => "read MCP HTTP response: "@ + e@,
    }
}

pub fn http_fault_error(f: HttpFault) -> (r: String)
    ensures
        r@ == http_fault_message(f),
{
    match f {
        HttpFault::Status(code, body) => {
            let mut r = owned("MCP HTTP ");
            r.append(decimal(code as u64).as_str());
            r.append(": ");
            r.append(body.as_str());
            r
        },
        HttpFault::Transport(e) => concat2("MCP HTTP transport: ", e.as_str()),
        HttpFault::Read(e) => concat2("read MCP HTTP response: ", e.as_str()),
    }
}

// -- Tool calls -----------------------------------------------------------------------

/// How long a tool call may take: the job's timeout, at least a second.
pub fn call_timeout_secs(timeout_secs: u64) -> (r: u64)
    ensures
        r == if timeout_secs < 1 {
            1
        } else {
            timeout_secs
        },
{
    if timeout_secs < 1 {
        1
    } else {
        timeout_secs
    }
}

/// The result of an MCP tool job from the call's outcome: its value
/// completes the job, `cancelled` cancels it, any other error fails it.
pub fn tool_call_result(job_id: &str, outcome: Result<Json, String>, now: Binary64) -> (r: CapabilityResult)
    ensures
        match outcome {
            Ok(v) => r.is_bare(job_id@, CapabilityExitState::Completed, now) && r.result == Some(v)
                && r.diagnostics is None,
            Err(e) => if e@ == "cancelled"@ {
                r.is_bare(job_id@, CapabilityExitState::Cancelled, now) && r.result is None && r.diagnostics is None
            } else {
                crate::capability::runners::is_failure(r, job_id@, e@, "mcp_call"@, now)
            },
        },
{
    match outcome {
        Ok(v) => CapabilityResult::completed(job_id, v, now),
        Err(e) => {
            if str_eq(e.as_str(), "cancelled") {
                CapabilityResult::cancelled(job_id, now)
            } else {
                CapabilityResult::failed(job_id, e.as_str(), Some("mcp_call"), now)
            }
        },
    }
}

} // verus!
