//! The connected MCP servers and their tools in the capability host.
//!
//! Each connected server's tools are registered under the server's tool
//! prefix, so that MCP tools run through the same policy and approval as
//! every other capability; disconnecting a server removes them again. The
//! host keeps the live transports, keyed by server name; this runtime keeps
//! what was discovered through them.

use vstd::prelude::*;

use crate::capability::abi::CapabilityGrants;
use crate::capability::host::{CapabilityHost, CapabilityRegistration};
use crate::json::{items_view, lookup, members_view, object_from_map, Json, JsonNumber, JsonView, NumberView};
use crate::mcp::{prefix_of, sanitize_segment, sanitized, tool_prefix};
use crate::provider::bodies::{field_of, lookup_last};
use crate::strmap::{ascending, find, StrMap};
use crate::text::{lemma_trim_nonempty, owned, seq_starts_with, seq_trim, str_eq};

verus! {

/// A tool of a connected server, called through the server's transport.
#[derive(Debug)]
pub struct McpToolRunner {
    pub server: String,
    pub remote_tool: String,
}

/// The tools discovered on each connected server, by server name.
#[derive(Debug)]
pub struct McpRuntime {
    pub sessions: StrMap<Vec<Json>>,
}

pub open spec fn tools_view(t: Vec<Json>) -> Seq<JsonView> {
    items_view(t@)
}

/// `{"type": "object", "properties": {}}`.
pub open spec fn empty_schema() -> JsonView {
    JsonView::Object(seq![("properties"@, JsonView::Object(Seq::empty())), ("type"@, JsonView::Str("object"@))])
}

/// A tool that can be offered: it has a string name whose segment is not
/// empty.
pub open spec fn is_offered(tool: JsonView) -> bool {
    match tool.str_field("name"@) {
        Some(n) => sanitized(n).len() > 0,
        None => false,
    }
}

/// The tools that can be offered, in order.
pub open spec fn offered_tools(tools: Seq<JsonView>) -> Seq<JsonView>
    decreases tools.len(),
{
    if tools.len() == 0 {
        Seq::empty()
    } else {
        let rest = offered_tools(tools.drop_last());
        if is_offered(tools.last()) {
            rest.push(tools.last())
        } else {
            rest
        }
    }
}

pub open spec fn remote_name(tool: JsonView) -> Seq<char> {
    tool.str_field("name"@).unwrap()
}

/// The local name of an offered tool of `server`.
pub open spec fn local_name(server: Seq<char>, tool: JsonView) -> Seq<char> {
    prefix_of(server) + sanitized(remote_name(tool))
}

/// Two offered tools get the same local name.
pub open spec fn names_collide(server: Seq<char>, tools: Seq<JsonView>) -> bool {
    exists|i: int, j: int|
        0 <= i < j < tools.len() && #[trigger] local_name(server, tools[i]) == #[trigger] local_name(server, tools[j])
}

pub open spec fn tool_description(tool: JsonView) -> Seq<char> {
    match tool.str_field("description"@) {
        Some(d) => d,
        None => remote_name(tool),
    }
}

pub open spec fn tool_parameters(tool: JsonView) -> JsonView {
    match tool.get("inputSchema"@) {
        Some(JsonView::Object(m)) => JsonView::Object(m),
        _ => empty_schema(),
    }
}

/// A server's `requires_approval`, true unless the config says otherwise.
pub open spec fn approval_required(config: JsonView) -> bool {
    match config.bool_field("requires_approval"@) {
        Some(b) => b,
        None => true,
    }
}

pub open spec fn tool_metadata(server: Seq<char>, remote: Seq<char>, approval: bool) -> JsonView {
    JsonView::Object(
        seq![
            ("capabilities"@, JsonView::Array(seq![JsonView::Str("mcp"@)])),
            ("category"@, JsonView::Str("mcp"@)),
            ("remote_tool"@, JsonView::Str(remote)),
            ("requires_approval"@, JsonView::Bool(approval)),
            ("risk_level"@, JsonView::Str(if approval { "medium"@ } else { "low"@ })),
            ("server"@, JsonView::Str(server)),
        ],
    )
}

/// The registration of an offered tool of `server`, but for its runner.
pub open spec fn is_tool_registration<R>(
    reg: CapabilityRegistration<R>,
    server: Seq<char>,
    config: JsonView,
    tool: JsonView,
) -> bool {
    &&& reg.capability_id@ == "mcp."@ + server + "."@ + remote_name(tool)
    &&& reg.tool_name@ == local_name(server, tool)
    &&& reg.description@ == tool_description(tool)
    &&& reg.parameters@ == tool_parameters(tool)
    &&& reg.metadata@ == tool_metadata(server, remote_name(tool), approval_required(config))
    &&& reg.grants.is_empty_grant()
    &&& !reg.workspace_write
}

/// A tool as the connect reply lists it.
pub open spec fn public_tool(server: Seq<char>, tool: JsonView) -> JsonView {
    JsonView::Object(
        seq![
            ("description"@, JsonView::Str(tool_description(tool))),
            ("inputSchema"@, tool_parameters(tool)),
            ("name"@, JsonView::Str(local_name(server, tool))),
            ("remote_name"@, JsonView::Str(remote_name(tool))),
        ],
    )
}

/// The reply of a connection attempt that failed with `error`: it needs
/// authorization when the error mentions OAuth.
pub open spec fn connect_failure(error: Seq<char>) -> JsonView {
    JsonView::Object(
        seq![
            ("available"@, JsonView::Bool(false)),
            ("error"@, JsonView::Str(error)),
            ("ok"@, JsonView::Bool(false)),
            ("started"@, JsonView::Bool(false)),
            ("status"@, JsonView::Str(if crate::text::seq_contains(error, "OAuth"@) { "needs_auth"@ } else { "error"@ })),
        ],
    )
}

pub open spec fn collision_reply() -> JsonView {
    JsonView::Object(
        seq![
            ("error"@, JsonView::Str("MCP tool names collide after normalization"@)),
            ("ok"@, JsonView::Bool(false)),
        ],
    )
}

pub open spec fn connected_reply(server: Seq<char>, offered: Seq<JsonView>) -> JsonView {
    JsonView::Object(
        seq![
            ("available"@, JsonView::Bool(true)),
            ("ok"@, JsonView::Bool(true)),
            ("started"@, JsonView::Bool(true)),
            ("status"@, JsonView::Str("connected"@)),
            ("tool_count"@, JsonView::Number(NumberView::PosInt(offered.len() as u64))),
            ("tools"@, JsonView::Array(offered.map_values(|t: JsonView| public_tool(server, t)))),
        ],
    )
}

fn json_str(s: &str) -> (r: Json)
    ensures
        r@ == JsonView::Str(s@),
{
    Json::String(owned(s))
}

fn empty_schema_json() -> (r: Json)
    ensures
        r@ == empty_schema(),
{
    let none: Vec<(String, Json)> = Vec::new();
    let members = vec![(owned("properties"), Json::Object(none)), (owned("type"), json_str("object"))];
    proof {
        crate::json::lemma_members_view(none@);
        crate::json::lemma_members_view(members@);
        assert(members_view(none@) =~= Seq::<(Seq<char>, JsonView)>::empty());
        assert(members_view(members@) =~= empty_schema()->Object_0);
    }
    Json::Object(members)
}

fn metadata_json(server: &str, remote: &str, approval: bool) -> (r: Json)
    ensures
        r@ == tool_metadata(server@, remote@, approval),
{
    let caps = vec![json_str("mcp")];
    let members = vec![
        (owned("capabilities"), Json::Array(caps)),
        (owned("category"), json_str("mcp")),
        (owned("remote_tool"), json_str(remote)),
        (owned("requires_approval"), Json::Bool(approval)),
        (owned("risk_level"), json_str(if approval { "medium" } else { "low" })),
        (owned("server"), json_str(server)),
    ];
    proof {
        crate::json::lemma_items_view(caps@);
        assert(items_view(caps@) =~= seq![JsonView::Str("mcp"@)]);
        crate::json::lemma_members_view(members@);
        assert(members_view(members@) =~= tool_metadata(server@, remote@, approval)->Object_0);
    }
    Json::Object(members)
}

/// A registration's runner was made by `wrap` from the runner of `remote`
/// on `server`.
pub open spec fn made_by<R, F: Fn(McpToolRunner) -> R>(wrap: F, runner: R, server: Seq<char>, remote: Seq<char>) -> bool {
    exists|t: McpToolRunner| t.server@ == server && t.remote_tool@ == remote && #[trigger] call_ensures(wrap, (t,), runner)
}

/// The tool registrations under a server's prefix after it connected with
/// the offered tools `offered`.
pub open spec fn registered_as<R, F: Fn(McpToolRunner) -> R>(
    by_tool: Seq<(Seq<char>, CapabilityRegistration<R>)>,
    k: Seq<char>,
    server: Seq<char>,
    config: JsonView,
    offered: Seq<JsonView>,
    wrap: F,
) -> bool {
    match find(by_tool, k) {
        None => forall|i: int| 0 <= i < offered.len() ==> #[trigger] local_name(server, offered[i]) != k,
        Some(reg) => exists|i: int|
            0 <= i < offered.len() && #[trigger] local_name(server, offered[i]) == k && is_tool_registration(
                reg,
                server,
                config,
                offered[i],
            ) && made_by(wrap, reg.runner, server, remote_name(offered[i])),
    }
}

fn failure_reply(error: String) -> (r: Json)
    ensures
        r@ == connect_failure(error@),
{
    let auth = crate::text::contains(error.as_str(), "OAuth");
    let members = vec![
        (owned("available"), Json::Bool(false)),
        (owned("error"), Json::String(error)),
        (owned("ok"), Json::Bool(false)),
        (owned("started"), Json::Bool(false)),
        (owned("status"), json_str(if auth { "needs_auth" } else { "error" })),
    ];
    proof {
        crate::json::lemma_members_view(members@);
        assert(members_view(members@) =~= connect_failure(error@)->Object_0);
    }
    Json::Object(members)
}

fn collision_json() -> (r: Json)
    ensures
        r@ == collision_reply(),
{
    let members = vec![
        (owned("error"), json_str("MCP tool names collide after normalization")),
        (owned("ok"), Json::Bool(false)),
    ];
    proof {
        crate::json::lemma_members_view(members@);
        assert(members_view(members@) =~= collision_reply()->Object_0);
    }
    Json::Object(members)
}

proof fn lemma_prefixed(prefix: Seq<char>, rest: Seq<char>)
    ensures
        seq_starts_with(prefix + rest, prefix),
{
    assert((prefix + rest).subrange(0, prefix.len() as int) =~= prefix);
}

proof fn lemma_offered_all(s: Seq<JsonView>)
    ensures
        forall|x: int| 0 <= x < offered_tools(s).len() ==> is_offered(#[trigger] offered_tools(s)[x]),
    decreases s.len(),
{
    if s.len() > 0 {
        lemma_offered_all(s.drop_last());
        let rest = offered_tools(s.drop_last());
        assert forall|x: int| 0 <= x < offered_tools(s).len() implies is_offered(#[trigger] offered_tools(s)[x]) by {
            if x < rest.len() {
                assert(offered_tools(s)[x] == rest[x]);
            }
        }
    }
}

/// The offered tools among `tools`, copied.
fn offered_of(tools: &Vec<Json>) -> (r: Vec<Json>)
    ensures
        items_view(r@) == offered_tools(items_view(tools@)),
{
    proof {
        crate::json::lemma_items_view(tools@);
    }
    let ghost tv = items_view(tools@);
    let mut out: Vec<Json> = Vec::new();
    proof {
        crate::json::lemma_items_view(out@);
    }
    let mut i: usize = 0;
    while i < tools.len()
        invariant
            i <= tools.len(),
            tv == items_view(tools@),
            tv.len() == tools@.len(),
            forall|x: int| 0 <= x < tools@.len() ==> #[trigger] tv[x] == tools@[x]@,
            items_view(out@) == offered_tools(tv.subrange(0, i as int)),
        decreases tools.len() - i,
    {
        proof {
            assert(tv.subrange(0, i + 1).drop_last() =~= tv.subrange(0, i as int));
            assert(tv.subrange(0, i + 1).last() == tools@[i as int]@);
        }
        match tools[i].str_field("name") {
            Some(n) => {
                let segment = sanitize_segment(n);
                if !segment.as_str().is_empty() {
                    let ghost before = out@;
                    out.push(tools[i].deep_clone());
                    proof {
                        crate::json::lemma_items_view_push(before, out@.last());
                        assert(before.push(out@.last()) =~= out@);
                    }
                }
            },
            None => {},
        }
        i = i + 1;
    }
    proof {
        assert(tv.subrange(0, tools@.len() as int) =~= tv);
    }
    out
}

/// The local name of an offered tool.
fn local_of(prefix: &String, tool: &Json, Ghost(server): Ghost<Seq<char>>) -> (r: String)
    requires
        prefix@ == prefix_of(server),
        is_offered(tool@),
    ensures
        r@ == local_name(server, tool@),
{
    let remote = match tool.str_field("name") {
        Some(n) => n,
        None => "",
    };
    let mut r = prefix.clone();
    r.append(sanitize_segment(remote).as_str());
    r
}

impl McpRuntime {
    pub fn new() -> (r: Self)
        ensures
            r.sessions@.len() == 0,
    {
        McpRuntime { sessions: StrMap::new() }
    }

    /// Forget a server and remove its tools from the host; answers whether
    /// it was connected.
    pub fn disconnect<R>(&mut self, name: &str, host: &mut CapabilityHost<R>) -> (was: bool)
        ensures
            was == (find(old(self).sessions@, name@) is Some),
            forall|k: Seq<char>| #![trigger find(final(self).sessions@, k)]
                find(final(self).sessions@, k) == if k == name@ {
                    None
                } else {
                    find(old(self).sessions@, k)
                },
            forall|k: Seq<char>| #![trigger find(final(host).registry.by_tool@, k)]
                find(final(host).registry.by_tool@, k) == if seq_starts_with(k, prefix_of(name@)) {
                    None
                } else {
                    find(old(host).registry.by_tool@, k)
                },
    {
        let prefix = tool_prefix(name);
        host.unregister_prefix(prefix.as_str());
        self.sessions.remove(name).is_some()
    }

    /// The names of the connected servers, in order.
    pub fn server_names(&self) -> (r: Vec<String>)
        ensures
            crate::text::names(r@) == self.sessions@.map_values(|p: (Seq<char>, Vec<Json>)| p.0),
    {
        let n = self.sessions.len();
        let mut out: Vec<String> = Vec::new();
        let mut i: usize = 0;
        while i < n
            invariant
                i <= n == self.sessions@.len(),
                crate::text::names(out@) == self.sessions@.subrange(0, i as int).map_values(
                    |p: (Seq<char>, Vec<Json>)| p.0,
                ),
            decreases n - i,
        {
            let (k, _) = self.sessions.entry(i);
            let ghost before = out@;
            out.push(k.clone());
            proof {
                crate::text::lemma_names_push(before, out@.last());
                assert(before.push(out@.last()) =~= out@);
                assert(self.sessions@.subrange(0, i + 1).map_values(|p: (Seq<char>, Vec<Json>)| p.0)
                    =~= self.sessions@.subrange(0, i as int).map_values(|p: (Seq<char>, Vec<Json>)| p.0).push(k@));
            }
            i = i + 1;
        }
        proof {
            assert(self.sessions@.subrange(0, n as int) =~= self.sessions@);
        }
        out
    }

    /// Register the tools of a server whose connection attempt gave
    /// `session` (its tools, or the error), after forgetting any earlier
    /// connection of it. Every offered tool is registered under its local
    /// name with a runner `wrap` makes; when two offered tools would share
    /// a local name, none is registered.
    #[verifier::loop_isolation(false)]
    pub fn connect<R, F: Fn(McpToolRunner) -> R>(
        &mut self,
        name: &str,
        config: &Json,
        session: Result<Vec<Json>, String>,
        host: &mut CapabilityHost<R>,
        wrap: F,
    ) -> (reply: Json)
        requires
            forall|t: McpToolRunner| call_requires(wrap, (t,)),
        ensures
            forall|k: Seq<char>| #![trigger find(final(self).sessions@, k)]
                k != name@ ==> find(final(self).sessions@, k) == find(old(self).sessions@, k),
            forall|k: Seq<char>| #![trigger find(final(host).registry.by_tool@, k)]
                !seq_starts_with(k, prefix_of(name@)) ==> find(final(host).registry.by_tool@, k) == find(
                    old(host).registry.by_tool@,
                    k,
                ),
            match session {
                Err(e) => {
                    &&& reply@ == connect_failure(e@)
                    &&& find(final(self).sessions@, name@) is None
                    &&& forall|k: Seq<char>| #![trigger find(final(host).registry.by_tool@, k)]
                        seq_starts_with(k, prefix_of(name@)) ==> find(final(host).registry.by_tool@, k) is None
                },
                Ok(tools) => {
                    let offered = offered_tools(items_view(tools@));
                    if names_collide(name@, offered) {
                        &&& reply@ == collision_reply()
                        &&& find(final(self).sessions@, name@) is None
                        &&& forall|k: Seq<char>| #![trigger find(final(host).registry.by_tool@, k)]
                            seq_starts_with(k, prefix_of(name@)) ==> find(final(host).registry.by_tool@, k) is None
                    } else {
                        &&& reply@ == connected_reply(name@, offered)
                        &&& find(final(self).sessions@, name@) matches Some(t) && items_view(t@) == items_view(tools@)
                        &&& forall|k: Seq<char>| #![trigger find(final(host).registry.by_tool@, k)]
                            seq_starts_with(k, prefix_of(name@)) ==> registered_as(
                                final(host).registry.by_tool@,
                                k,
                                name@,
                                config@,
                                offered,
                                wrap,
                            )
                    }
                },
            },
    {
        self.disconnect(name, host);
        let tools = match session {
            Err(e) => {
                return failure_reply(e);
            },
            Ok(t) => t,
        };
        let prefix = tool_prefix(name);
        let chosen = offered_of(&tools);
        let ghost offered = items_view(chosen@);
        proof {
            crate::json::lemma_items_view(chosen@);
            lemma_offered_all(items_view(tools@));
        }
        let ghost disc = host.registry.by_tool@;
        let mut locals: Vec<String> = Vec::new();
        let mut b: usize = 0;
        while b < chosen.len()
            invariant
                b <= chosen.len(),
                prefix@ == prefix_of(name@),
                offered == items_view(chosen@),
                offered.len() == chosen@.len(),
                forall|x: int| 0 <= x < chosen@.len() ==> #[trigger] offered[x] == chosen@[x]@,
                forall|x: int| 0 <= x < offered.len() ==> is_offered(#[trigger] offered[x]),
                offered == offered_tools(items_view(tools@)),
                locals@.len() == b,
                forall|x: int| 0 <= x < b ==> #[trigger] locals@[x]@ == local_name(name@, offered[x]),
                forall|x: int, y: int| 0 <= x < y < b ==> local_name(name@, #[trigger] offered[x]) != local_name(name@, #[trigger] offered[y]),
                host.registry.by_tool@ == disc,
                forall|k: Seq<char>| #![trigger find(disc, k)]
                    seq_starts_with(k, prefix_of(name@)) ==> find(disc, k) is None,
                forall|k: Seq<char>| #![trigger find(disc, k)]
                    !seq_starts_with(k, prefix_of(name@)) ==> find(disc, k) == find(old(host).registry.by_tool@, k),
            decreases chosen.len() - b,
        {
            assert(offered[b as int] == chosen@[b as int]@);
            let local = local_of(&prefix, &chosen[b], Ghost(name@));
            let mut a: usize = 0;
            while a < b
                invariant
                    a <= b == locals@.len(),
                    b < offered.len(),
                    offered == offered_tools(items_view(tools@)),
                    local@ == local_name(name@, offered[b as int]),
                    forall|x: int| 0 <= x < b ==> #[trigger] locals@[x]@ == local_name(name@, offered[x]),
                    forall|x: int| 0 <= x < a ==> local_name(name@, #[trigger] offered[x]) != local@,
                    host.registry.by_tool@ == disc,
                    forall|k: Seq<char>| #![trigger find(disc, k)]
                        seq_starts_with(k, prefix_of(name@)) ==> find(disc, k) is None,
                    forall|k: Seq<char>| #![trigger find(disc, k)]
                        !seq_starts_with(k, prefix_of(name@)) ==> find(disc, k) == find(old(host).registry.by_tool@, k),
                decreases b - a,
            {
                if str_eq(locals[a].as_str(), local.as_str()) {
                    host.unregister_prefix(prefix.as_str());
                    proof {
                        assert(names_collide(name@, offered_tools(items_view(tools@)))) by {
                            assert(local_name(name@, offered[a as int]) == local_name(name@, offered[b as int]));
                        }
                    }
                    return collision_json();
                }
                a = a + 1;
            }
            locals.push(local);
            b = b + 1;
        }
        proof {
            assert(!names_collide(name@, offered_tools(items_view(tools@))));
        }
        let approval = match config.bool_field("requires_approval") {
            Some(v) => v,
            None => true,
        };
        let ghost after_disc = host.registry.by_tool@;
        let mut public: Vec<Json> = Vec::new();
        let mut j: usize = 0;
        while j < chosen.len()
            invariant
                j <= chosen.len() == locals@.len(),
                prefix@ == prefix_of(name@),
                offered == items_view(chosen@),
                offered.len() == chosen@.len(),
                forall|x: int| 0 <= x < chosen@.len() ==> #[trigger] offered[x] == chosen@[x]@,
                forall|x: int| 0 <= x < offered.len() ==> is_offered(#[trigger] offered[x]),
                forall|x: int| 0 <= x < locals@.len() ==> #[trigger] locals@[x]@ == local_name(name@, offered[x]),
                forall|x: int, y: int| 0 <= x < y < offered.len() ==> local_name(name@, #[trigger] offered[x]) != local_name(name@, #[trigger] offered[y]),
                approval == approval_required(config@),
                forall|t: McpToolRunner| call_requires(wrap, (t,)),
                forall|k: Seq<char>| #![trigger find(after_disc, k)]
                    seq_starts_with(k, prefix_of(name@)) ==> find(after_disc, k) is None,
                forall|k: Seq<char>| #![trigger find(after_disc, k)]
                    !seq_starts_with(k, prefix_of(name@)) ==> find(after_disc, k) == find(old(host).registry.by_tool@, k),
                forall|k: Seq<char>| #![trigger find(host.registry.by_tool@, k)]
                    !seq_starts_with(k, prefix_of(name@)) ==> find(host.registry.by_tool@, k) == find(after_disc, k),
                forall|k: Seq<char>| #![trigger find(host.registry.by_tool@, k)]
                    seq_starts_with(k, prefix_of(name@)) ==> registered_as(
                        host.registry.by_tool@,
                        k,
                        name@,
                        config@,
                        offered.subrange(0, j as int),
                        wrap,
                    ),
                items_view(public@) == offered.subrange(0, j as int).map_values(|t: JsonView| public_tool(name@, t)),
            decreases chosen.len() - j,
        {
            let tool = &chosen[j];
            let remote = match tool.str_field("name") {
                Some(n) => n,
                None => "",
            };
            let description = match tool.str_field("description") {
                Some(d) => owned(d),
                None => owned(remote),
            };
            let parameters = match tool.get("inputSchema") {
                Some(v) => if v.is_object() {
                    v.deep_clone()
                } else {
                    empty_schema_json()
                },
                None => empty_schema_json(),
            };
            let mut capability_id = owned("mcp.");
            capability_id.append(name);
            capability_id.append(".");
            capability_id.append(remote);
            let local = locals[j].clone();
            let runner_of = McpToolRunner { server: owned(name), remote_tool: owned(remote) };
            let ghost made = runner_of;
            let runner = wrap(runner_of);
            let public_entry_parameters = parameters.deep_clone();
            let registration = CapabilityRegistration {
                capability_id,
                tool_name: local,
                description: description.clone(),
                parameters,
                metadata: metadata_json(name, remote, approval),
                grants: CapabilityGrants::default(),
                workspace_write: false,
                runner,
            };
            let ghost reg = registration;
            proof {
                reveal_strlit("mcp.");
                assert("mcp."@[0] == 'm');
                lemma_trim_nonempty(reg.capability_id@);
                reveal_strlit("mcp__");
                assert("mcp__"@[0] == 'm');
                assert(reg.tool_name@ == local_name(name@, offered[j as int]));
                assert(reg.tool_name@[0] == 'm');
                lemma_trim_nonempty(reg.tool_name@);
                lemma_prefixed(prefix_of(name@), sanitized(remote_name(offered[j as int])));
                assert(seq_starts_with(reg.tool_name@, prefix_of(name@)));
                assert(registered_as(host.registry.by_tool@, reg.tool_name@, name@, config@, offered.subrange(0, j as int), wrap));
                assert(find(host.registry.by_tool@, reg.tool_name@) is None) by {
                    if find(host.registry.by_tool@, reg.tool_name@) is Some {
                        let i = choose|i: int| 0 <= i < j && #[trigger] local_name(name@, offered.subrange(0, j as int)[i]) == reg.tool_name@;
                        assert(offered.subrange(0, j as int)[i] == offered[i]);
                    }
                }
                assert(is_tool_registration(reg, name@, config@, offered[j as int]));
                assert(made_by(wrap, reg.runner, name@, remote_name(offered[j as int])));
            }
            let ghost before = host.registry.by_tool@;
            let outcome = host.register(registration);
            proof {
                assert(outcome is Ok);
                assert(offered.subrange(0, j + 1).drop_last() =~= offered.subrange(0, j as int));
                assert forall|k: Seq<char>| #![trigger find(host.registry.by_tool@, k)]
                    seq_starts_with(k, prefix_of(name@)) implies registered_as(
                        host.registry.by_tool@,
                        k,
                        name@,
                        config@,
                        offered.subrange(0, j + 1),
                        wrap,
                    ) by {
                    let next = offered.subrange(0, j + 1);
                    assert(next[j as int] == offered[j as int]);
                    if k == reg.tool_name@ {
                        assert(local_name(name@, next[j as int]) == k);
                    } else {
                        assert(registered_as(before, k, name@, config@, offered.subrange(0, j as int), wrap));
                        match find(before, k) {
                            None => {
                                assert forall|i: int| 0 <= i < next.len() implies #[trigger] local_name(name@, next[i]) != k by {
                                    if i < j {
                                        assert(next[i] == offered.subrange(0, j as int)[i]);
                                    }
                                }
                            },
                            Some(r) => {
                                let i = choose|i: int|
                                    0 <= i < j && #[trigger] local_name(name@, offered.subrange(0, j as int)[i]) == k
                                        && is_tool_registration(r, name@, config@, offered.subrange(0, j as int)[i])
                                        && made_by(wrap, r.runner, name@, remote_name(offered.subrange(0, j as int)[i]));
                                assert(next[i] == offered.subrange(0, j as int)[i]);
                            },
                        }
                    }
                }
            }
            let members = vec![
                (owned("description"), Json::String(description)),
                (owned("inputSchema"), public_entry_parameters),
                (owned("name"), Json::String(locals[j].clone())),
                (owned("remote_name"), json_str(remote)),
            ];
            let ghost before_public = public@;
            public.push(Json::Object(members));
            proof {
                crate::json::lemma_members_view(members@);
                assert(members_view(members@) =~= public_tool(name@, offered[j as int])->Object_0);
                crate::json::lemma_items_view_push(before_public, public@.last());
                assert(before_public.push(public@.last()) =~= public@);
                assert(offered.subrange(0, j + 1).map_values(|t: JsonView| public_tool(name@, t)) =~= offered.subrange(
                    0,
                    j as int,
                ).map_values(|t: JsonView| public_tool(name@, t)).push(public_tool(name@, offered[j as int])));
            }
            j = j + 1;
        }
        proof {
            assert(offered.subrange(0, chosen@.len() as int) =~= offered);
        }
        let count = public.len() as u64;
        let members = vec![
            (owned("available"), Json::Bool(true)),
            (owned("ok"), Json::Bool(true)),
            (owned("started"), Json::Bool(true)),
            (owned("status"), json_str("connected")),
            (owned("tool_count"), Json::Number(JsonNumber::PosInt(count))),
            (owned("tools"), Json::Array(public)),
        ];
        let ghost kept = tools@;
        self.sessions.insert(owned(name), tools);
        proof {
            crate::json::lemma_members_view(members@);
            crate::json::lemma_items_view(public@);
            assert(members_view(members@) =~= connected_reply(name@, offered)->Object_0);
        }
        Json::Object(members)
    }
}

/// A connected server's tools as listed: every tool with a string name,
/// under its local name.
pub open spec fn listed_tools(server: Seq<char>, tools: Seq<JsonView>) -> Seq<JsonView>
    decreases tools.len(),
{
    if tools.len() == 0 {
        Seq::empty()
    } else {
        let rest = listed_tools(server, tools.drop_last());
        let t = tools.last();
        match t.str_field("name"@) {
            Some(remote) => rest.push(
                JsonView::Object(
                    seq![
                        ("description"@, crate::provider::bodies::or_null(t.get("description"@))),
                        ("inputSchema"@, match t.get("inputSchema"@) {
                            Some(v) => v,
                            None => empty_schema(),
                        }),
                        ("name"@, JsonView::Str(prefix_of(server) + sanitized(remote))),
                        ("remote_name"@, JsonView::Str(remote)),
                    ],
                ),
            ),
            None => rest,
        }
    }
}

pub open spec fn not_connected_reply() -> JsonView {
    JsonView::Object(
        seq![
            ("available"@, JsonView::Bool(false)),
            ("error"@, JsonView::Str("MCP server is not connected"@)),
            ("ok"@, JsonView::Bool(false)),
            ("tools"@, JsonView::Array(Seq::empty())),
        ],
    )
}

/// A config row of a connected server shows it connected with its tool
/// count and no error; other rows stay as they are.
pub open spec fn decorated_field(
    row: JsonView,
    sessions: Seq<(Seq<char>, Vec<Json>)>,
    k: Seq<char>,
) -> Option<JsonView> {
    let count = find(sessions, row.str_field("name"@).unwrap())->0@.len();
    if k == "status"@ {
        Some(JsonView::Str("connected"@))
    } else if k == "tool_count"@ {
        Some(JsonView::Number(NumberView::PosInt(count as u64)))
    } else if k == "last_error"@ {
        Some(JsonView::Null)
    } else {
        lookup_last(row->Object_0, k)
    }
}

/// A row is decorated when it names a connected server.
pub open spec fn decorates(row: JsonView, sessions: Seq<(Seq<char>, Vec<Json>)>) -> bool {
    match row.str_field("name"@) {
        Some(n) => find(sessions, n) is Some,
        None => false,
    }
}

impl McpRuntime {
    /// The tools of a connected server.
    pub fn tools(&self, name: &str) -> (r: Json)
        ensures
            r@ == match find(self.sessions@, name@) {
                None => not_connected_reply(),
                Some(t) => JsonView::Object(
                    seq![
                        ("available"@, JsonView::Bool(true)),
                        ("ok"@, JsonView::Bool(true)),
                        ("tools"@, JsonView::Array(listed_tools(name@, items_view(t@)))),
                    ],
                ),
            },
    {
        let tools = match self.sessions.get(name) {
            None => {
                let none: Vec<Json> = Vec::new();
                let members = vec![
                    (owned("available"), Json::Bool(false)),
                    (owned("error"), json_str("MCP server is not connected")),
                    (owned("ok"), Json::Bool(false)),
                    (owned("tools"), Json::Array(none)),
                ];
                proof {
                    crate::json::lemma_items_view(none@);
                    assert(items_view(none@) =~= Seq::<JsonView>::empty());
                    crate::json::lemma_members_view(members@);
                    assert(members_view(members@) =~= not_connected_reply()->Object_0);
                }
                return Json::Object(members);
            },
            Some(t) => t,
        };
        let prefix = tool_prefix(name);
        proof {
            crate::json::lemma_items_view(tools@);
        }
        let ghost tv = items_view(tools@);
        let mut out: Vec<Json> = Vec::new();
        proof {
            crate::json::lemma_items_view(out@);
        }
        let mut i: usize = 0;
        while i < tools.len()
            invariant
                i <= tools.len(),
                prefix@ == prefix_of(name@),
                tv == items_view(tools@),
                tv.len() == tools@.len(),
                forall|x: int| 0 <= x < tools@.len() ==> #[trigger] tv[x] == tools@[x]@,
                items_view(out@) == listed_tools(name@, tv.subrange(0, i as int)),
            decreases tools.len() - i,
        {
            proof {
                assert(tv.subrange(0, i + 1).drop_last() =~= tv.subrange(0, i as int));
                assert(tv.subrange(0, i + 1).last() == tools@[i as int]@);
            }
            let t = &tools[i];
            match t.str_field("name") {
                Some(remote) => {
                    let description = match t.get("description") {
                        Some(d) => d.deep_clone(),
                        None => Json::Null,
                    };
                    let schema = match t.get("inputSchema") {
                        Some(v) => v.deep_clone(),
                        None => empty_schema_json(),
                    };
                    let mut local = prefix.clone();
                    local.append(sanitize_segment(remote).as_str());
                    let members = vec![
                        (owned("description"), description),
                        (owned("inputSchema"), schema),
                        (owned("name"), Json::String(local)),
                        (owned("remote_name"), json_str(remote)),
                    ];
                    proof {
                        crate::json::lemma_members_view(members@);
                    }
                    let entry = Json::Object(members);
                    proof {
                        assert(members_view(members@) =~= listed_tools(name@, tv.subrange(0, i + 1)).last()->Object_0);
                    }
                    let ghost before = out@;
                    out.push(entry);
                    proof {
                        crate::json::lemma_items_view_push(before, out@.last());
                        assert(before.push(out@.last()) =~= out@);
                    }
                },
                None => {},
            }
            i = i + 1;
        }
        proof {
            assert(tv.subrange(0, tools@.len() as int) =~= tv);
        }
        let ghost ov = items_view(out@);
        let members = vec![
            (owned("available"), Json::Bool(true)),
            (owned("ok"), Json::Bool(true)),
            (owned("tools"), Json::Array(out)),
        ];
        proof {
            crate::json::lemma_members_view(members@);
            assert(members_view(members@) =~= seq![
                ("available"@, JsonView::Bool(true)),
                ("ok"@, JsonView::Bool(true)),
                ("tools"@, JsonView::Array(ov)),
            ]);
        }
        Json::Object(members)
    }

    /// Mark the config rows of connected servers as connected, with their
    /// tool count and no error.
    pub fn decorate_rows(&self, rows: &mut Vec<Json>)
        ensures
            final(rows)@.len() == old(rows)@.len(),
            forall|i: int| 0 <= i < old(rows)@.len() ==> if decorates(#[trigger] old(rows)@[i]@, self.sessions@) {
                crate::provider::bodies::sorted_object(final(rows)@[i]@) && forall|k: Seq<char>|
                    #![trigger lookup(crate::provider::bodies::body_members(final(rows)@[i]@), k)]
                    lookup(crate::provider::bodies::body_members(final(rows)@[i]@), k) == decorated_field(
                        old(rows)@[i]@,
                        self.sessions@,
                        k,
                    )
            } else {
                final(rows)@[i] == old(rows)@[i]
            },
    {
        let ghost start = rows@;
        let mut i: usize = 0;
        while i < rows.len()
            invariant
                i <= rows.len(),
                rows@.len() == start.len(),
                forall|x: int| i <= x < start.len() ==> #[trigger] rows@[x] == start[x],
                forall|x: int| 0 <= x < i ==> if decorates(#[trigger] start[x]@, self.sessions@) {
                    crate::provider::bodies::sorted_object(rows@[x]@) && forall|k: Seq<char>|
                        #![trigger lookup(crate::provider::bodies::body_members(rows@[x]@), k)]
                        lookup(crate::provider::bodies::body_members(rows@[x]@), k) == decorated_field(
                            start[x]@,
                            self.sessions@,
                            k,
                        )
                } else {
                    rows@[x] == start[x]
                },
            decreases rows.len() - i,
        {
            let count = match rows[i].str_field("name") {
                Some(n) => match self.sessions.get(n) {
                    Some(t) => Some(t.len() as u64),
                    None => None,
                },
                None => None,
            };
            match count {
                Some(c) => {
                    let row = rows.remove(i);
                    let updated = decorated_row(row, c, Ghost(self.sessions@));
                    rows.insert(i, updated);
                },
                None => {},
            }
            i = i + 1;
        }
    }
}

/// A row object with `status`, `tool_count` and `last_error` set.
fn decorated_row(row: Json, count: u64, Ghost(sessions): Ghost<Seq<(Seq<char>, Vec<Json>)>>) -> (r: Json)
    requires
        decorates(row@, sessions),
        count == find(sessions, row@.str_field("name"@).unwrap())->0@.len(),
    ensures
        crate::provider::bodies::sorted_object(r@),
        forall|k: Seq<char>| #![trigger lookup(crate::provider::bodies::body_members(r@), k)]
            lookup(crate::provider::bodies::body_members(r@), k) == decorated_field(row@, sessions, k),
{
    let ghost rv = row@;
    let members = match row {
        Json::Object(m) => m,
        _ => Vec::new(),
    };
    proof {
        crate::json::lemma_members_view(members@);
    }
    let ghost mv = members_view(members@);
    assert(rv->Object_0 == mv);
    let mut map: StrMap<Json> = StrMap::new();
    let mut i: usize = 0;
    while i < members.len()
        invariant
            i <= members.len(),
            mv == members_view(members@),
            mv.len() == members@.len(),
            forall|x: int| 0 <= x < members@.len() ==> #[trigger] mv[x] == (members@[x].0@, members@[x].1@),
            forall|k: Seq<char>| #![trigger field_of(map@, k)]
                field_of(map@, k) == lookup_last(mv.subrange(0, i as int), k),
        decreases members.len() - i,
    {
        proof {
            assert(mv.subrange(0, i + 1).drop_last() =~= mv.subrange(0, i as int));
            assert(mv.subrange(0, i + 1).last() == mv[i as int]);
        }
        let ghost before = map@;
        map.insert(members[i].0.clone(), members[i].1.deep_clone());
        proof {
            assert forall|k: Seq<char>| #![trigger field_of(map@, k)]
                field_of(map@, k) == lookup_last(mv.subrange(0, i + 1), k) by {
                assert(field_of(before, k) == field_of(before, k));
            }
        }
        i = i + 1;
    }
    proof {
        assert(mv.subrange(0, members@.len() as int) =~= mv);
    }
    let ghost m0 = map@;
    map.insert(owned("last_error"), Json::Null);
    map.insert(owned("tool_count"), Json::Number(JsonNumber::PosInt(count)));
    map.insert(owned("status"), json_str("connected"));
    let ghost fm = map@;
    let body = object_from_map(map);
    proof {
        assert forall|k: Seq<char>| #![trigger lookup(crate::provider::bodies::body_members(body@), k)]
            lookup(crate::provider::bodies::body_members(body@), k) == decorated_field(rv, sessions, k) by {
            crate::json::lemma_map_members_lookup(fm, k);
            assert(field_of(m0, k) == lookup_last(mv, k));
            assert(field_of(fm, k) == field_of(fm, k));
        }
    }
    body
}

} // verus!
