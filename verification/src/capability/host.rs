//! The Runtime's capability execution authority: the catalogue of
//! registered capabilities, what reaches a worker, and how a capability's
//! result is reported back to the agent loop.
//!
//! A registration owns both the model-visible schema and the runner, so no
//! model-visible tool can bypass its controlled execution. Only the secrets
//! a capability is granted ever reach its job, an invalid grant or a
//! cancelled run never reaches a runner, and a result is always turned into
//! exactly one tool result.

use vstd::prelude::*;

use crate::binary64::Binary64;
use crate::capability::abi::{
    grant_fault, CapabilityArtifact, CapabilityExitState, CapabilityGrants, CapabilityJob,
    CapabilityResult,
};
use crate::json::{Json, JsonView};
use crate::runtime::tools::{failure_output, StagedArtifact, ToolCall, ToolExitState, ToolResult};
use crate::strmap::{find, StrMap};
use crate::text::{concat2, names, owned, seq_starts_with, seq_trim, starts_with, trim};

verus! {

/// A capability as the Runtime registers it.
#[derive(Debug)]
pub struct CapabilityRegistration<R> {
    pub capability_id: String,
    pub tool_name: String,
    pub description: String,
    pub parameters: Json,
    pub metadata: Json,
    pub grants: CapabilityGrants,
    pub workspace_write: bool,
    pub runner: R,
}

/// The Rust-authoritative capability catalogue, one registration per tool
/// name, kept in tool-name order.
#[derive(Debug)]
pub struct CapabilityRegistry<R> {
    pub by_tool: StrMap<CapabilityRegistration<R>>,
}

/// The model-facing schema of a registration.
pub open spec fn schema_view<R>(r: CapabilityRegistration<R>) -> JsonView {
    JsonView::Object(
        seq![
            ("function"@, JsonView::Object(
                seq![
                    ("description"@, JsonView::Str(r.description@)),
                    ("metadata"@, r.metadata@),
                    ("name"@, JsonView::Str(r.tool_name@)),
                    ("parameters"@, r.parameters@),
                ],
            )),
            ("type"@, JsonView::Str("function"@)),
        ],
    )
}

/// A registration is shown to the model unless its metadata says
/// `model_visible: false`.
pub open spec fn model_visible<R>(r: CapabilityRegistration<R>) -> bool {
    r.metadata@.bool_field("model_visible"@) != Some(false)
}

/// The schemas of the model-visible registrations, in tool-name order.
pub open spec fn visible_schemas<R>(s: Seq<(Seq<char>, CapabilityRegistration<R>)>) -> Seq<JsonView>
    decreases s.len(),
{
    if s.len() == 0 {
        Seq::empty()
    } else {
        let rest = visible_schemas(s.drop_last());
        if model_visible(s.last().1) {
            rest.push(schema_view(s.last().1))
        } else {
            rest
        }
    }
}

/// The number of tools whose name starts with `prefix`.
pub open spec fn count_prefixed<V>(s: Seq<(Seq<char>, V)>, prefix: Seq<char>) -> nat
    decreases s.len(),
{
    if s.len() == 0 {
        0
    } else {
        count_prefixed(s.drop_last(), prefix) + if seq_starts_with(s.last().0, prefix) {
            1nat
        } else {
            0nat
        }
    }
}

fn schema_json<R>(r: &CapabilityRegistration<R>) -> (j: Json)
    ensures
        j@ == schema_view(*r),
{
    let function = vec![
        ("description".to_string(), Json::String(r.description.clone())),
        ("metadata".to_string(), r.metadata.deep_clone()),
        ("name".to_string(), Json::String(r.tool_name.clone())),
        ("parameters".to_string(), r.parameters.deep_clone()),
    ];
    proof {
        crate::json::lemma_members_view(function@);
        assert(crate::json::members_view(function@) =~= seq![
            ("description"@, JsonView::Str(r.description@)),
            ("metadata"@, r.metadata@),
            ("name"@, JsonView::Str(r.tool_name@)),
            ("parameters"@, r.parameters@),
        ]);
    }
    let outer = vec![
        ("function".to_string(), Json::Object(function)),
        ("type".to_string(), Json::String("function".to_string())),
    ];
    proof {
        crate::json::lemma_members_view(outer@);
        assert(crate::json::members_view(outer@) =~= seq![
            ("function"@, JsonView::Object(crate::json::members_view(function@))),
            ("type"@, JsonView::Str("function"@)),
        ]);
    }
    Json::Object(outer)
}

impl<R> CapabilityRegistry<R> {
    pub fn new() -> (r: Self)
        ensures
            r.by_tool@.len() == 0,
    {
        CapabilityRegistry { by_tool: StrMap::new() }
    }

    /// Register a capability. The capability id and tool name must not be
    /// blank, and a tool name is registered once.
    pub fn register(&mut self, registration: CapabilityRegistration<R>) -> (r: Result<(), String>)
        ensures
            seq_trim(registration.capability_id@).len() == 0 || seq_trim(registration.tool_name@).len() == 0
                ==> (r matches Err(e) && e@ == "capability id and tool name are required"@
                    && final(self).by_tool@ == old(self).by_tool@),
            seq_trim(registration.capability_id@).len() != 0 && seq_trim(registration.tool_name@).len() != 0
                && find(old(self).by_tool@, registration.tool_name@) is Some ==> (r matches Err(e) && e@
                == "capability tool is already registered: "@ + registration.tool_name@
                && final(self).by_tool@ == old(self).by_tool@),
            seq_trim(registration.capability_id@).len() != 0 && seq_trim(registration.tool_name@).len() != 0
                && find(old(self).by_tool@, registration.tool_name@) is None ==> r is Ok && forall|k: Seq<char>|
                #![trigger find(final(self).by_tool@, k)]
                find(final(self).by_tool@, k) == if k == registration.tool_name@ {
                    Some(registration)
                } else {
                    find(old(self).by_tool@, k)
                },
    {
        let id = trim(registration.capability_id.as_str());
        let tool = trim(registration.tool_name.as_str());
        if id.as_str().is_empty() || tool.as_str().is_empty() {
            return Err("capability id and tool name are required".to_string());
        }
        if self.by_tool.contains_key(registration.tool_name.as_str()) {
            return Err(concat2("capability tool is already registered: ", registration.tool_name.as_str()));
        }
        let key = registration.tool_name.clone();
        self.by_tool.insert(key, registration);
        Ok(())
    }

    /// The registration of a tool.
    pub fn get(&self, tool_name: &str) -> (r: Option<&CapabilityRegistration<R>>)
        ensures
            r is Some <==> find(self.by_tool@, tool_name@) is Some,
            r matches Some(reg) ==> find(self.by_tool@, tool_name@) == Some(*reg),
    {
        self.by_tool.get(tool_name)
    }

    /// Remove every tool whose name starts with `prefix`; answers how many
    /// were removed.
    pub fn unregister_prefix(&mut self, prefix: &str) -> (n: usize)
        ensures
            n == count_prefixed(old(self).by_tool@, prefix@),
            forall|k: Seq<char>|
                #![trigger find(final(self).by_tool@, k)]
                find(final(self).by_tool@, k) == if seq_starts_with(k, prefix@) {
                    None
                } else {
                    find(old(self).by_tool@, k)
                },
    {
        let mut kept: StrMap<CapabilityRegistration<R>> = StrMap::new();
        let mut removed: usize = 0;
        let mut old_map: StrMap<CapabilityRegistration<R>> = StrMap::new();
        std::mem::swap(&mut old_map, &mut self.by_tool);
        let ghost all = old_map@;
        let entries = old_map.into_entries();
        let ghost ev = crate::strmap::entries_view(entries@);
        let n = entries.len();
        let mut rest = entries;
        let mut i: usize = 0;
        proof {
            assert(ev == all);
            assert(ev.len() == n);
        }
        while i < n
            invariant
                i <= n == ev.len(),
                ev == all,
                crate::strmap::ascending(all),
                crate::strmap::entries_view(rest@) == ev.subrange(i as int, n as int),
                removed == count_prefixed(ev.subrange(0, i as int), prefix@),
                removed <= i,
                forall|k: Seq<char>|
                    #![trigger find(kept@, k)]
                    find(kept@, k) == if seq_starts_with(k, prefix@) {
                        None
                    } else {
                        find(ev.subrange(0, i as int), k)
                    },
            decreases n - i,
        {
            let ghost rest_before = rest@;
            proof {
                assert(crate::strmap::entries_view(rest@).len() == rest@.len());
                assert(rest@.len() > 0);
            }
            let (name, registration) = rest.remove(0);
            proof {
                crate::strmap::lemma_entries_view_index(rest_before, 0);
                assert(crate::strmap::entries_view(rest_before)[0] == (name@, registration));
                assert(crate::strmap::entries_view(rest@) =~= crate::strmap::entries_view(rest_before).drop_first());
                assert(ev.subrange(i as int, n as int)[0] == ev[i as int]);
                assert(ev.subrange(i as int, n as int).drop_first() =~= ev.subrange(i + 1, n as int));
                assert(ev.subrange(0, i + 1).drop_last() =~= ev.subrange(0, i as int));
                assert(ev.subrange(0, i + 1).last() == ev[i as int]);
            }
            if starts_with(name.as_str(), prefix) {
                removed = removed + 1;
            } else {
                kept.insert(name, registration);
            }
            proof {
                assert forall|k: Seq<char>| #![trigger find(kept@, k)]
                    find(kept@, k) == if seq_starts_with(k, prefix@) {
                        None
                    } else {
                        find(ev.subrange(0, i + 1), k)
                    } by {
                    crate::application::lemma_find_extend(ev, i as int, k);
                }
            }
            i = i + 1;
        }
        proof {
            assert(ev.subrange(0, n as int) =~= ev);
        }
        self.by_tool = kept;
        removed
    }

    /// The schemas of all model-visible tools, in tool-name order.
    pub fn tool_schemas(&self) -> (r: Json)
        ensures
            r@ == JsonView::Array(visible_schemas(self.by_tool@)),
    {
        let n = self.by_tool.len();
        let mut items: Vec<Json> = Vec::new();
        let mut i: usize = 0;
        while i < n
            invariant
                i <= n == self.by_tool@.len(),
                crate::json::items_view(items@) == visible_schemas(self.by_tool@.subrange(0, i as int)),
            decreases n - i,
        {
            let (_, registration) = self.by_tool.entry(i);
            proof {
                assert(self.by_tool@.subrange(0, i + 1).drop_last() =~= self.by_tool@.subrange(0, i as int));
            }
            let visible = match registration.metadata.bool_field("model_visible") {
                Some(b) => b,
                None => true,
            };
            if visible {
                let schema = schema_json(registration);
                proof {
                    crate::json::lemma_items_view_push(items@, schema);
                }
                items.push(schema);
            }
            i = i + 1;
        }
        proof {
            assert(self.by_tool@.subrange(0, i as int) =~= self.by_tool@);
        }
        Json::Array(items)
    }

    /// The schemas of the model-visible tools that `keep` accepts, in
    /// tool-name order. `keep` is asked once about each registration, in
    /// tool-name order.
    pub fn tool_schemas_filtered<F: Fn(&CapabilityRegistration<R>) -> bool>(&self, keep: F) -> (r: Json)
        requires
            forall|reg: &CapabilityRegistration<R>| #[trigger] keep.requires((reg,)),
        ensures
            exists|answers: Seq<bool>|
                #![trigger accepted_schemas(self.by_tool@, answers)]
                answers.len() == self.by_tool@.len() && (forall|i: int|
                    0 <= i < answers.len() ==> keep.ensures((&self.by_tool@[i].1,), #[trigger] answers[i]))
                    && r@ == JsonView::Array(accepted_schemas(self.by_tool@, answers)),
    {
        let n = self.by_tool.len();
        let mut items: Vec<Json> = Vec::new();
        let ghost mut answers: Seq<bool> = Seq::empty();
        let mut i: usize = 0;
        while i < n
            invariant
                i <= n == self.by_tool@.len(),
                forall|reg: &CapabilityRegistration<R>| #[trigger] keep.requires((reg,)),
                answers.len() == i,
                forall|j: int| 0 <= j < i ==> keep.ensures((&self.by_tool@[j].1,), #[trigger] answers[j]),
                crate::json::items_view(items@) == accepted_schemas(self.by_tool@.subrange(0, i as int), answers),
            decreases n - i,
        {
            let (_, registration) = self.by_tool.entry(i);
            let visible = match registration.metadata.bool_field("model_visible") {
                Some(b) => b,
                None => true,
            };
            let wanted = keep(registration);
            proof {
                assert(self.by_tool@.subrange(0, i + 1).drop_last() =~= self.by_tool@.subrange(0, i as int));
                assert(answers.push(wanted).drop_last() =~= answers);
            }
            if wanted && visible {
                let schema = schema_json(registration);
                proof {
                    crate::json::lemma_items_view_push(items@, schema);
                }
                items.push(schema);
            }
            proof {
                answers = answers.push(wanted);
            }
            i = i + 1;
        }
        proof {
            assert(self.by_tool@.subrange(0, i as int) =~= self.by_tool@);
        }
        Json::Array(items)
    }
}

/// The schemas of the model-visible registrations for which `keep` answered
/// yes (`answers[i]` for the `i`-th registration), in tool-name order.
pub open spec fn accepted_schemas<R>(s: Seq<(Seq<char>, CapabilityRegistration<R>)>, answers: Seq<bool>) -> Seq<JsonView>
    decreases s.len(),
{
    if s.len() == 0 {
        Seq::empty()
    } else {
        let rest = accepted_schemas(s.drop_last(), answers.drop_last());
        if model_visible(s.last().1) && answers.last() {
            rest.push(schema_view(s.last().1))
        } else {
            rest
        }
    }
}

/// Capability supervisor used by the Runtime as its mandatory tool
/// executor: it owns the registry every tool call is dispatched through.
#[derive(Debug)]
pub struct CapabilityHost<R> {
    pub registry: CapabilityRegistry<R>,
}

impl<R> CapabilityHost<R> {
    pub fn new() -> (r: Self)
        ensures
            r.registry.by_tool@.len() == 0,
    {
        CapabilityHost { registry: CapabilityRegistry::new() }
    }

    pub fn register(&mut self, registration: CapabilityRegistration<R>) -> (r: Result<(), String>)
        ensures
            r is Ok <==> (seq_trim(registration.capability_id@).len() != 0 && seq_trim(registration.tool_name@).len() != 0
                && find(old(self).registry.by_tool@, registration.tool_name@) is None),
            r is Ok ==> forall|k: Seq<char>|
                #![trigger find(final(self).registry.by_tool@, k)]
                find(final(self).registry.by_tool@, k) == if k == registration.tool_name@ {
                    Some(registration)
                } else {
                    find(old(self).registry.by_tool@, k)
                },
            r is Err ==> final(self).registry.by_tool@ == old(self).registry.by_tool@,
            r matches Err(e) ==> e@ == if seq_trim(registration.capability_id@).len() == 0 || seq_trim(
                registration.tool_name@,
            ).len() == 0 {
                "capability id and tool name are required"@
            } else {
                "capability tool is already registered: "@ + registration.tool_name@
            },
    {
        self.registry.register(registration)
    }

    pub fn unregister_prefix(&mut self, prefix: &str) -> (n: usize)
        ensures
            n == count_prefixed(old(self).registry.by_tool@, prefix@),
            forall|k: Seq<char>|
                #![trigger find(final(self).registry.by_tool@, k)]
                find(final(self).registry.by_tool@, k) == if seq_starts_with(k, prefix@) {
                    None
                } else {
                    find(old(self).registry.by_tool@, k)
                },
    {
        self.registry.unregister_prefix(prefix)
    }

    pub fn tool_schemas(&self) -> (r: Json)
        ensures
            r@ == JsonView::Array(visible_schemas(self.registry.by_tool@)),
    {
        self.registry.tool_schemas()
    }
}

/// The secrets a job carries: exactly its granted keys, each with the value
/// the run's context holds for it, else the value the authority resolved.
pub open spec fn scoped_secrets(
    r: Seq<(Seq<char>, String)>,
    granted: Seq<String>,
    resolved: Seq<(Seq<char>, String)>,
    context: Seq<(Seq<char>, String)>,
) -> bool {
    forall|k: Seq<char>|
        #![trigger find(r, k)]
        find(r, k) == if names(granted).contains(k) {
            match find(context, k) {
                Some(v) => Some(v),
                None => find(resolved, k),
            }
        } else {
            None
        }
}

/// Whether the authority must be asked for secret values at all: only when
/// the job is granted some.
pub fn needs_secret_resolution(grants: &CapabilityGrants) -> (r: bool)
    ensures
        r == (grants.secrets@.len() > 0),
{
    grants.secrets.len() > 0
}

fn is_granted(granted: &Vec<String>, key: &str) -> (r: bool)
    ensures
        r == names(granted@).contains(key@),
{
    let mut i: usize = 0;
    while i < granted.len()
        invariant
            i <= granted.len(),
            forall|j: int| 0 <= j < i ==> names(granted@)[j] != key@,
        decreases granted.len() - i,
    {
        if crate::text::str_eq(granted[i].as_str(), key) {
            assert(names(granted@)[i as int] == key@);
            return true;
        }
        i = i + 1;
    }
    false
}

/// The secret values a job is given: the authority's resolved values,
/// overridden by the run context's own, restricted to the granted keys.
pub fn scope_secrets(granted: &Vec<String>, resolved: &StrMap<String>, context: &StrMap<String>) -> (r: StrMap<
    String,
>)
    ensures
        scoped_secrets(r@, granted@, resolved@, context@),
{
    let mut out: StrMap<String> = StrMap::new();
    let mut i: usize = 0;
    while i < granted.len()
        invariant
            i <= granted.len(),
            forall|k: Seq<char>|
                #![trigger find(out@, k)]
                find(out@, k) == if names(granted@).subrange(0, i as int).contains(k) {
                    match find(context@, k) {
                        Some(v) => Some(v),
                        None => find(resolved@, k),
                    }
                } else {
                    None
                },
        decreases granted.len() - i,
    {
        let key = &granted[i];
        let ghost prefix = names(granted@).subrange(0, i as int);
        proof {
            assert(names(granted@).subrange(0, i + 1) =~= prefix.push(key@));
        }
        let value = match context.get(key.as_str()) {
            Some(v) => Some(v.clone()),
            None => match resolved.get(key.as_str()) {
                Some(v) => Some(v.clone()),
                None => None,
            },
        };
        match value {
            Some(v) => {
                out.insert(key.clone(), v);
            },
            None => {},
        }
        proof {
            assert forall|k: Seq<char>| #![trigger find(out@, k)]
                find(out@, k) == if prefix.push(key@).contains(k) {
                    match find(context@, k) {
                        Some(v) => Some(v),
                        None => find(resolved@, k),
                    }
                } else {
                    None
                } by {
                if k == key@ {
                    assert(prefix.push(key@)[prefix.len() as int] == k);
                } else {
                    if prefix.push(key@).contains(k) {
                        let j = choose|j: int| 0 <= j < prefix.push(key@).len() && prefix.push(key@)[j] == k;
                        assert(prefix[j] == k);
                    }
                    if prefix.contains(k) {
                        let j = choose|j: int| 0 <= j < prefix.len() && prefix[j] == k;
                        assert(prefix.push(key@)[j] == k);
                    }
                }
            }
        }
        i = i + 1;
    }
    proof {
        assert(names(granted@).subrange(0, i as int) =~= names(granted@));
    }
    out
}

/// Only granted secrets cross the worker boundary: every secret a job
/// carries is one of its granted keys, whatever the authority or the run
/// context hold; with no grants, a job carries none.
pub proof fn law_only_granted_secrets_reach_a_job(
    r: Seq<(Seq<char>, String)>,
    granted: Seq<String>,
    resolved: Seq<(Seq<char>, String)>,
    context: Seq<(Seq<char>, String)>,
    k: Seq<char>,
)
    requires
        scoped_secrets(r, granted, resolved, context),
    ensures
        find(r, k) is Some ==> names(granted).contains(k),
        granted.len() == 0 ==> find(r, k) is None,
{
    assert(find(r, k) == find(r, k));
}

/// The read roots, and with write access the write roots, widened to the
/// job's workspace.
pub fn widen_grants(grants: CapabilityGrants, workspace: Option<String>, workspace_write: bool) -> (r: CapabilityGrants)
    ensures
        match workspace {
            None => r == grants,
            Some(w) => {
                &&& names(r.read_roots@) == if names(grants.read_roots@).contains(w@) {
                    names(grants.read_roots@)
                } else {
                    names(grants.read_roots@).push(w@)
                }
                &&& names(r.write_roots@) == if !workspace_write || names(grants.write_roots@).contains(w@) {
                    names(grants.write_roots@)
                } else {
                    names(grants.write_roots@).push(w@)
                }
                &&& r.network == grants.network
                &&& r.secrets == grants.secrets
                &&& r.exec_allowed == grants.exec_allowed
                &&& r.execution_epoch == grants.execution_epoch
                &&& r.expires_at == grants.expires_at
            },
        },
{
    match workspace {
        None => grants,
        Some(w) => {
            let mut g = grants;
            if !is_granted(&g.read_roots, w.as_str()) {
                proof {
                    crate::text::lemma_names_push(g.read_roots@, w);
                }
                g.read_roots.push(w.clone());
            }
            if workspace_write && !is_granted(&g.write_roots, w.as_str()) {
                proof {
                    crate::text::lemma_names_push(g.write_roots@, w);
                }
                g.write_roots.push(w);
            }
            g
        },
    }
}

/// The input files a job declares: its `input_files` strings, and, for a
/// capability that cannot write the workspace, its `path` argument.
pub open spec fn declared_inputs(arguments: JsonView, workspace_write: bool) -> Seq<Seq<char>> {
    let listed = match arguments.get("input_files"@) {
        Some(JsonView::Array(items)) => string_items(items),
        _ => Seq::empty(),
    };
    if !workspace_write && arguments.str_field("path"@) is Some {
        listed.push(arguments.str_field("path"@)->0)
    } else {
        listed
    }
}

/// The strings among `items`, in order.
pub open spec fn string_items(items: Seq<JsonView>) -> Seq<Seq<char>>
    decreases items.len(),
{
    if items.len() == 0 {
        Seq::empty()
    } else {
        let rest = string_items(items.drop_last());
        match items.last().as_str() {
            Some(s) => rest.push(s),
            None => rest,
        }
    }
}

pub fn input_file_paths(arguments: &Json, workspace_write: bool) -> (r: Vec<String>)
    ensures
        names(r@) == declared_inputs(arguments@, workspace_write),
{
    let mut paths: Vec<String> = Vec::new();
    match arguments.get("input_files") {
        Some(Json::Array(items)) => {
            let mut i: usize = 0;
            while i < items.len()
                invariant
                    i <= items.len(),
                    names(paths@) == string_items(crate::json::items_view(items@.subrange(0, i as int))),
                decreases items.len() - i,
            {
                proof {
                    assert(items@.subrange(0, i + 1) =~= items@.subrange(0, i as int).push(items@[i as int]));
                    crate::json::lemma_items_view_push(items@.subrange(0, i as int), items@[i as int]);
                    let v = crate::json::items_view(items@.subrange(0, i + 1));
                    assert(v.drop_last() =~= crate::json::items_view(items@.subrange(0, i as int)));
                }
                match items[i].as_str() {
                    Some(s) => {
                        let p = owned(s);
                        proof {
                            crate::text::lemma_names_push(paths@, p);
                        }
                        paths.push(p);
                    },
                    None => {},
                }
                i = i + 1;
            }
            assert(items@.subrange(0, i as int) =~= items@);
        },
        _ => {},
    }
    if !workspace_write {
        match arguments.str_field("path") {
            Some(p) => {
                let p = owned(p);
                proof {
                    crate::text::lemma_names_push(paths@, p);
                }
                paths.push(p);
            },
            None => {},
        }
    }
    paths
}

/// What a capability reports back as its output: its typed result, else its
/// text output, else an empty object.
pub open spec fn reported_output(r: CapabilityResult) -> JsonView {
    match r.result {
        Some(v) => v@,
        None => match r.output {
            Some(o) => JsonView::Str(o@),
            None => JsonView::Object(Seq::empty()),
        },
    }
}

/// The error a capability reports: its diagnostic message, else its error
/// code, else a description of how it ended (none on completion).
pub open spec fn reported_error(r: CapabilityResult) -> Option<Seq<char>> {
    let diagnosed = match r.diagnostics {
        Some(d) => match d.error_message {
            Some(m) => Some(m@),
            None => match d.error_code {
                Some(c) => Some(c@),
                None => None,
            },
        },
        None => None,
    };
    match diagnosed {
        Some(e) => Some(e),
        None => match r.state {
            CapabilityExitState::Completed => None,
            CapabilityExitState::Failed => Some("capability failed"@),
            CapabilityExitState::Cancelled => Some("capability cancelled"@),
            CapabilityExitState::TimedOut => Some("capability timed out"@),
        },
    }
}

pub open spec fn tool_state_of(s: CapabilityExitState) -> ToolExitState {
    match s {
        CapabilityExitState::Completed => ToolExitState::Completed,
        CapabilityExitState::Failed => ToolExitState::Failed,
        CapabilityExitState::Cancelled => ToolExitState::Cancelled,
        CapabilityExitState::TimedOut => ToolExitState::TimedOut,
    }
}

/// An artifact a worker staged, as the agent loop receives it; its kind
/// defaults to `file`.
pub open spec fn staged_from(a: CapabilityArtifact, s: StagedArtifact) -> bool {
    &&& s.staging_path == a.staging_path
    &&& s.relative_path == a.relative_path
    &&& s.kind@ == match a.kind {
        Some(k) => k@,
        None => "file"@,
    }
    &&& s.incomplete == a.incomplete
}

/// The tool result of a capability result.
pub fn tool_result_of(call_id: &str, result: CapabilityResult) -> (r: ToolResult)
    ensures
        r.tool_call_id@ == call_id@,
        r.output@ == reported_output(result),
        match reported_error(result) {
            Some(e) => r.error matches Some(x) && x@ == e,
            None => r.error is None,
        },
        r.state == tool_state_of(result.state),
        r.validation_criteria is None,
        r.staged_artifacts@.len() == result.artifacts@.len(),
        forall|i: int|
            0 <= i < result.artifacts@.len() ==> #[trigger] staged_from(result.artifacts@[i], r.staged_artifacts@[i]),
{
    let ghost original = result;
    let output = match result.result {
        Some(v) => v,
        None => match result.output {
            Some(o) => Json::String(o),
            None => Json::Object(Vec::new()),
        },
    };
    proof {
        assert(crate::json::members_view(Seq::<(String, Json)>::empty()) =~= Seq::<(Seq<char>, JsonView)>::empty());
    }
    let diagnosed = match result.diagnostics {
        Some(d) => match d.error_message {
            Some(m) => Some(m),
            None => d.error_code,
        },
        None => None,
    };
    let error = match diagnosed {
        Some(e) => Some(e),
        None => match result.state {
            CapabilityExitState::Completed => None,
            CapabilityExitState::Failed => Some("capability failed".to_string()),
            CapabilityExitState::Cancelled => Some("capability cancelled".to_string()),
            CapabilityExitState::TimedOut => Some("capability timed out".to_string()),
        },
    };
    let state = match result.state {
        CapabilityExitState::Completed => ToolExitState::Completed,
        CapabilityExitState::Failed => ToolExitState::Failed,
        CapabilityExitState::Cancelled => ToolExitState::Cancelled,
        CapabilityExitState::TimedOut => ToolExitState::TimedOut,
    };
    let artifacts = result.artifacts;
    let n = artifacts.len();
    let mut rest = artifacts;
    let mut staged: Vec<StagedArtifact> = Vec::new();
    let mut i: usize = 0;
    while i < n
        invariant
            i <= n == original.artifacts@.len(),
            rest@ == original.artifacts@.subrange(i as int, n as int),
            staged@.len() == i,
            forall|j: int| 0 <= j < i ==> #[trigger] staged_from(original.artifacts@[j], staged@[j]),
        decreases n - i,
    {
        let ghost before = rest@;
        let artifact = rest.remove(0);
        proof {
            assert(before[0] == original.artifacts@[i as int]);
            assert(rest@ =~= original.artifacts@.subrange(i + 1, n as int));
        }
        let kind = match artifact.kind {
            Some(k) => k,
            None => "file".to_string(),
        };
        staged.push(
            StagedArtifact {
                staging_path: artifact.staging_path,
                relative_path: artifact.relative_path,
                kind,
                incomplete: artifact.incomplete,
            },
        );
        i = i + 1;
    }
    ToolResult {
        tool_call_id: owned(call_id),
        output,
        error,
        staged_artifacts: staged,
        validation_criteria: None,
        state,
    }
}

/// The tool result of a call the host refused before any runner: the tool
/// is not registered, the execution gate refused it, the job could not be
/// built, or its grant did not hold.
pub fn refused_call(call_id: &str, error: String) -> (r: ToolResult)
    ensures
        r.tool_call_id@ == call_id@,
        r.output@ == failure_output(error@),
        r.error matches Some(e) && e@ == error@,
        r.staged_artifacts@.len() == 0,
        r.state == ToolExitState::Failed,
{
    ToolResult::failure(call_id, error)
}

/// The job a call runs as, given what the host prepared: the job id, the
/// run and session, the workspace, the grants as scoped to the workspace,
/// the timeout in seconds and the staging directory. The boundary is derived
/// from the grants and recorded as coming from the registration; a boundary
/// whose window starts after it ends refuses the job. The timeout is at
/// least one second. Secrets and input files are added by the host.
pub fn prepare_job(
    capability_id: &str,
    job_id: &str,
    arguments: Json,
    run_id: String,
    session_id: String,
    workspace: Option<String>,
    grants: CapabilityGrants,
    timeout_secs: u64,
    staging_dir: Option<String>,
) -> (r: Result<CapabilityJob, crate::capability::abi::BoundaryWindowError>)
    ensures
        r is Err <==> (grants.execution_epoch matches Some(e) && grants.expires_at matches Some(x) && x.less(e)),
        r matches Err(w) ==> Some(w.execution_epoch) == grants.execution_epoch && Some(w.expires_at)
            == grants.expires_at && w.provenance@ == "capability.registration"@,
        r matches Ok(j) ==> {
            &&& j.abi_version == crate::capability::abi::CAPABILITY_ABI_VERSION
            &&& j.capability_id@ == capability_id@ && j.job_id@ == job_id@
            &&& j.arguments == arguments
            &&& j.run_id == Some(run_id) && j.session_id == Some(session_id) && j.workspace == workspace
            &&& j.grants == grants
            &&& j.boundary.read_roots@ == grants.read_roots@ && j.boundary.write_roots@ == grants.write_roots@
            &&& j.boundary.network@ == grants.network@ && j.boundary.exec_allowed == grants.exec_allowed
            &&& j.boundary.secrets@ == grants.secrets@ && !j.boundary.destructive
            &&& j.boundary.provenance@ == "capability.registration"@
            &&& j.boundary.execution_epoch == grants.execution_epoch && j.boundary.expires_at == grants.expires_at
            &&& j.timeout_secs == (if timeout_secs < 1 { 1 } else { timeout_secs })
            &&& j.artifact_staging_dir == staging_dir
            &&& j.input_files@.len() == 0 && j.secret_values@.len() == 0
        },
{
    let mut job = CapabilityJob::new(capability_id, job_id, arguments);
    job.run_id = Some(run_id);
    job.session_id = Some(session_id);
    job.workspace = workspace;
    job.boundary = crate::capability::abi::CapabilityBoundary::from_grants(&grants, owned("capability.registration"));
    job.grants = grants;
    if let Err(w) = job.boundary.validate() {
        return Err(w);
    }
    job.timeout_secs = if timeout_secs < 1 {
        1
    } else {
        timeout_secs
    };
    job.artifact_staging_dir = staging_dir;
    Ok(job)
}

/// `r` is the failed result of call `call_id` with error `message`, as
/// `ToolResult::failure` builds it.
pub open spec fn is_failure_result(r: ToolResult, call_id: Seq<char>, message: Seq<char>) -> bool {
    &&& r.tool_call_id@ == call_id
    &&& r.state == ToolExitState::Failed
    &&& r.error matches Some(e) && e@ == message
    &&& r.output@ == failure_output(message)
    &&& r.staged_artifacts@.len() == 0
    &&& r.validation_criteria is None
}

/// `r` reports capability result `result` for call `call_id`, as
/// `tool_result_of` builds it.
pub open spec fn is_reported_result(r: ToolResult, call_id: Seq<char>, result: CapabilityResult) -> bool {
    &&& r.tool_call_id@ == call_id
    &&& r.output@ == reported_output(result)
    &&& match reported_error(result) {
        Some(e) => r.error matches Some(x) && x@ == e,
        None => r.error is None,
    }
    &&& r.state == tool_state_of(result.state)
    &&& r.validation_criteria is None
    &&& r.staged_artifacts@.len() == result.artifacts@.len()
    &&& forall|i: int|
        0 <= i < result.artifacts@.len() ==> #[trigger] staged_from(result.artifacts@[i], r.staged_artifacts@[i])
}

/// The failure of a call to a tool nobody registered.
pub fn unregistered_tool(call_id: &str, tool_name: &str) -> (r: ToolResult)
    ensures
        r.tool_call_id@ == call_id@,
        is_failure_result(r, call_id@, "capability is not registered: "@ + tool_name@),
{
    ToolResult::failure(call_id, concat2("capability is not registered: ", tool_name))
}

/// The output of a call cancelled before dispatch.
pub open spec fn cancelled_output() -> JsonView {
    JsonView::Object(seq![("cancelled"@, JsonView::Bool(true)), ("ok"@, JsonView::Bool(false))])
}

/// A call whose run was cancelled before its job was dispatched.
pub fn cancelled_before_dispatch(call_id: &str) -> (r: ToolResult)
    ensures
        r.tool_call_id@ == call_id@,
        r.output@ == cancelled_output(),
        r.error matches Some(e) && e@ == "cancelled before dispatch"@,
        r.staged_artifacts@.len() == 0,
        r.validation_criteria is None,
        r.state == ToolExitState::Cancelled,
{
    let members = vec![("cancelled".to_string(), Json::Bool(true)), ("ok".to_string(), Json::Bool(false))];
    proof {
        crate::json::lemma_members_view(members@);
        assert(crate::json::members_view(members@) =~= seq![
            ("cancelled"@, JsonView::Bool(true)),
            ("ok"@, JsonView::Bool(false)),
        ]);
    }
    ToolResult {
        tool_call_id: owned(call_id),
        output: Json::Object(members),
        error: Some("cancelled before dispatch".to_string()),
        staged_artifacts: Vec::new(),
        validation_criteria: None,
        state: ToolExitState::Cancelled,
    }
}

/// The host's last word before dispatch, as `refuse_before_dispatch` gives
/// it: the grant error, the cancellation, or `None` when the job may run.
pub open spec fn dispatch_refusal(
    r: Option<ToolResult>,
    call_id: Seq<char>,
    job: CapabilityJob,
    cancelled: bool,
    now: Binary64,
) -> bool {
    &&& (grant_fault(job.boundary.execution_epoch, job.boundary.expires_at, now) is Some ==> (r matches Some(t)
        && t.state == ToolExitState::Failed && t.tool_call_id@ == call_id && t.staged_artifacts@.len() == 0
        && t.validation_criteria is None && (t.error matches Some(m) && t.output@
        == crate::runtime::tools::failure_output(m@) && exists|e: crate::capability::abi::GrantValidationError|
        crate::capability::abi::fault_matches(
            grant_fault(job.boundary.execution_epoch, job.boundary.expires_at, now)->0,
            e,
        ) && #[trigger] e.message_of() == m@)))
    &&& (grant_fault(job.boundary.execution_epoch, job.boundary.expires_at, now) is None && cancelled
        ==> (r matches Some(t) && t.state == ToolExitState::Cancelled && t.output@ == cancelled_output()
        && t.tool_call_id@ == call_id && (t.error matches Some(e) && e@ == "cancelled before dispatch"@)
        && t.staged_artifacts@.len() == 0 && t.validation_criteria is None))
    &&& (grant_fault(job.boundary.execution_epoch, job.boundary.expires_at, now) is None && !cancelled ==> r is None)
}

/// The host's last word before dispatch: a job whose grant does not hold at
/// `now` is refused with the grant error, and a job of a cancelled run is
/// reported cancelled; otherwise the job may go to its runner (`None`).
pub fn refuse_before_dispatch(call_id: &str, job: &CapabilityJob, cancelled: bool, now: Binary64) -> (r: Option<ToolResult>)
    ensures
        dispatch_refusal(r, call_id@, *job, cancelled, now),
{
    match job.boundary.validate_execution_grant_at(now) {
        Err(e) => {
            let t = ToolResult::failure(call_id, e.message());
            Some(t)
        },
        Ok(()) => {
            if cancelled {
                Some(cancelled_before_dispatch(call_id))
            } else {
                None
            }
        },
    }
}

impl<R> CapabilityHost<R> {
    /// Run a tool call through its registration, as the Runtime's tool
    /// executor: an unregistered tool fails; the product's execution gate
    /// may refuse the call; the job is built (`build`: grants scoped to the
    /// workspace, staging directory, secrets, recorded inputs) or the call
    /// fails with why not; a job whose grant does not hold at `now`, or of a
    /// cancelled run, never reaches the runner; otherwise `run` executes it
    /// on the registration's runner and its result is reported.
    pub fn execute<G, B, C, F>(
        &self,
        call: &ToolCall,
        gate: G,
        build: B,
        is_cancelled: C,
        now: Binary64,
        run: F,
    ) -> (r: ToolResult) where
        G: FnOnce(&CapabilityRegistration<R>) -> Result<(), String>,
        B: FnOnce(&CapabilityRegistration<R>) -> Result<CapabilityJob, String>,
        C: FnOnce() -> bool,
        F: FnOnce(&CapabilityRegistration<R>, &CapabilityJob) -> CapabilityResult,

        requires
            forall|reg: &CapabilityRegistration<R>| #[trigger] gate.requires((reg,)),
            forall|reg: &CapabilityRegistration<R>| #[trigger] build.requires((reg,)),
            is_cancelled.requires(()),
            forall|reg: &CapabilityRegistration<R>, job: &CapabilityJob| #[trigger] run.requires((reg, job)),
        ensures
            match find(self.registry.by_tool@, call.name@) {
                None => is_failure_result(r, call.id@, "capability is not registered: "@ + call.name@),
                Some(reg) => exists|gated: Result<(), String>|
                    #![trigger gate.ensures((&reg,), gated)]
                    gate.ensures((&reg,), gated) && match gated {
                        Err(e) => is_failure_result(r, call.id@, e@),
                        Ok(_) => exists|built: Result<CapabilityJob, String>|
                            #![trigger build.ensures((&reg,), built)]
                            build.ensures((&reg,), built) && match built {
                                Err(e) => is_failure_result(r, call.id@, e@),
                                Ok(job) => exists|cancelled: bool|
                                    #![trigger is_cancelled.ensures((), cancelled)]
                                    is_cancelled.ensures((), cancelled) && if grant_fault(
                                        job.boundary.execution_epoch,
                                        job.boundary.expires_at,
                                        now,
                                    ) is None && !cancelled {
                                        exists|result: CapabilityResult|
                                            #![trigger run.ensures((&reg, &job), result)]
                                            run.ensures((&reg, &job), result) && is_reported_result(r, call.id@, result)
                                    } else {
                                        dispatch_refusal(Some(r), call.id@, job, cancelled, now)
                                    },
                            },
                    },
            },
    {
        let registration = match self.registry.get(call.name.as_str()) {
            None => return unregistered_tool(call.id.as_str(), call.name.as_str()),
            Some(reg) => reg,
        };
        let gated = gate(registration);
        let ghost gated_v = gated;
        if let Err(e) = gated {
            let r = ToolResult::failure(call.id.as_str(), e);
            assert(gate.ensures((registration,), gated_v));
            return r;
        }
        let built = build(registration);
        let ghost built_v = built;
        let job = match built {
            Err(e) => {
                let r = ToolResult::failure(call.id.as_str(), e);
                assert(gate.ensures((registration,), gated_v));
                assert(build.ensures((registration,), built_v));
                return r;
            },
            Ok(job) => job,
        };
        let cancelled = is_cancelled();
        let refusal = refuse_before_dispatch(call.id.as_str(), &job, cancelled, now);
        match refusal {
            Some(t) => {
                assert(gate.ensures((registration,), gated_v));
                assert(build.ensures((registration,), built_v));
                assert(is_cancelled.ensures((), cancelled));
                t
            },
            None => {
                let result = run(registration, &job);
                let ghost result_v = result;
                let r = tool_result_of(call.id.as_str(), result);
                assert(gate.ensures((registration,), gated_v));
                assert(build.ensures((registration,), built_v));
                assert(is_cancelled.ensures((), cancelled));
                assert(run.ensures((registration, &job), result_v));
                r
            },
        }
    }
}

} // verus!
