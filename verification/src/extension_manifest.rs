//! Manifest-driven registration of out-of-process capabilities.
//!
//! Foundation owns discovery, grants and supervision. Each installed
//! extension owns its own manifest under `<state>/extensions/<source>/`, so
//! that no extension can overwrite another while every worker stays below
//! the capability host. A manifest is checked as a whole, then its enabled
//! workers are registered one by one; the first worker that fails stops the
//! manifest, keeping the workers registered before it.

use vstd::prelude::*;

use crate::capability::abi::CapabilityGrants;
use crate::capability::host::{CapabilityHost, CapabilityRegistration};
use crate::capability::persistent::PersistentWorkerProcessRunner;
use crate::capability::runners::WorkerProcessRunner;
use crate::json::{lookup, members_view, object_from_map, Json, JsonView};
use crate::provider::bodies::{body_members, field_of, lookup_last, sorted_object};
use crate::strmap::{find, StrMap};
use crate::text::{concat2, decimal, decimal_of, names, owned, seq_trim, str_eq};

verus! {

pub const EXTENSIONS_DIRNAME: &'static str = "extensions";

pub const CAPABILITY_WORKER_MANIFEST_FILENAME: &'static str = "capability-workers.json";

pub const CAPABILITY_WORKER_MANIFEST_VERSION: u32 = 1;

/// One worker a manifest declares.
#[derive(Debug)]
pub struct WorkerEntry {
    pub capability_id: String,
    pub tool_name: String,
    pub description: String,
    pub parameters: Json,
    pub metadata: Json,
    pub grants: CapabilityGrants,
    pub workspace_write: bool,
    pub program: String,
    pub arguments: Vec<String>,
    pub environment: StrMap<String>,
    pub enabled: bool,
    pub persistent: bool,
    pub process_key: Option<String>,
}

/// An extension's manifest of capability workers.
#[derive(Debug)]
pub struct WorkerManifest {
    pub version: u32,
    pub source: String,
    pub workers: Vec<WorkerEntry>,
}

/// What loading every installed extension registered and what failed.
#[derive(Debug)]
pub struct WorkerManifestLoadReport {
    pub registered: usize,
    pub errors: Vec<String>,
}

impl Default for WorkerManifestLoadReport {
    fn default() -> (r: Self)
        ensures
            r.registered == 0,
            r.errors@.len() == 0,
    {
        WorkerManifestLoadReport { registered: 0, errors: Vec::new() }
    }
}

/// `{"type": "object", "properties": {}}`: the parameters of a worker
/// that declares none.
pub open spec fn default_parameters_view() -> JsonView {
    JsonView::Object(seq![("properties"@, JsonView::Object(Seq::empty())), ("type"@, JsonView::Str("object"@))])
}

pub fn default_parameters() -> (r: Json)
    ensures
        r@ == default_parameters_view(),
{
    let none: Vec<(String, Json)> = Vec::new();
    let members = vec![(owned("properties"), Json::Object(none)), (owned("type"), Json::String(owned("object")))];
    proof {
        crate::json::lemma_members_view(none@);
        crate::json::lemma_members_view(members@);
        assert(members_view(none@) =~= Seq::<(Seq<char>, JsonView)>::empty());
        assert(members_view(members@) =~= default_parameters_view()->Object_0);
    }
    Json::Object(members)
}

/// Workers are enabled unless they say otherwise.
pub fn default_true() -> (r: bool)
    ensures
        r,
{
    true
}

/// The problem with a manifest as a whole, found in the directory named
/// `directory`: another version, a blank source, or a source that is not
/// the directory's name.
pub open spec fn header_problem(version: u32, source: Seq<char>, directory: Seq<char>) -> Option<Seq<char>> {
    if version != CAPABILITY_WORKER_MANIFEST_VERSION {
        Some("unsupported capability worker manifest version: "@ + decimal_of(version as nat))
    } else if seq_trim(source).len() == 0 {
        Some("capability worker manifest source is required"@)
    } else if seq_trim(source) != directory {
        Some(
            "capability worker manifest source '"@ + seq_trim(source) + "' does not match extension directory '"@
                + directory + "'"@,
        )
    } else {
        None
    }
}

/// The enabled workers, in order.
pub open spec fn enabled_entries(ws: Seq<WorkerEntry>) -> Seq<WorkerEntry>
    decreases ws.len(),
{
    if ws.len() == 0 {
        Seq::empty()
    } else {
        let rest = enabled_entries(ws.drop_last());
        if ws.last().enabled {
            rest.push(ws.last())
        } else {
            rest
        }
    }
}

/// The problem with one worker: a blank id, name or description, or a
/// program path that is not absolute.
pub open spec fn entry_problem(e: WorkerEntry, absolute: bool) -> Option<Seq<char>> {
    if seq_trim(e.capability_id@).len() == 0 || seq_trim(e.tool_name@).len() == 0 || seq_trim(e.description@).len()
        == 0 {
        Some("worker capability id, tool name and description are required"@)
    } else if !absolute {
        Some("worker program must be an absolute path: "@ + e.program@)
    } else {
        None
    }
}

pub open spec fn absolute_at(absolute: Seq<bool>, i: int) -> bool {
    0 <= i < absolute.len() && absolute[i]
}

/// Why the `i`-th enabled worker cannot be registered, once the workers
/// before it were: a problem of its own, or its tool name is taken.
pub open spec fn entry_failure<R>(
    old: Seq<(Seq<char>, CapabilityRegistration<R>)>,
    es: Seq<WorkerEntry>,
    absolute: Seq<bool>,
    i: int,
) -> Option<Seq<char>> {
    match entry_problem(es[i], absolute_at(absolute, i)) {
        Some(m) => Some(m),
        None => if find(old, es[i].tool_name@) is Some || exists|j: int| 0 <= j < i && #[trigger] es[j].tool_name@ == es[i].tool_name@ {
            Some("capability tool is already registered: "@ + es[i].tool_name@)
        } else {
            None
        },
    }
}

/// How many enabled workers, from the `i`-th on, register before one fails.
pub open spec fn registered_from<R>(
    old: Seq<(Seq<char>, CapabilityRegistration<R>)>,
    es: Seq<WorkerEntry>,
    absolute: Seq<bool>,
    i: int,
) -> int
    decreases es.len() - i,
{
    if i >= es.len() || i < 0 {
        es.len() as int
    } else if entry_failure(old, es, absolute, i) is Some {
        i
    } else {
        registered_from(old, es, absolute, i + 1)
    }
}

/// What `{:?}` writes for a string: the text quoted, with the escapes of
/// `char::escape_debug`.
pub uninterp spec fn debug_quoted(s: Seq<char>) -> Seq<char>;

/// `format!("{:?}", s)` for a string; the contract claims only that the
/// text is a function of `s` (`debug_quoted`).
#[verifier::external_body]
fn debug_str(s: &str) -> (r: String)
    ensures
        r@ == debug_quoted(s@),
{
    format!("{s:?}")
}

/// The items joined by `, `.
pub open spec fn comma_joined(parts: Seq<Seq<char>>) -> Seq<char>
    decreases parts.len(),
{
    if parts.len() == 0 {
        Seq::empty()
    } else if parts.len() == 1 {
        parts[0]
    } else {
        comma_joined(parts.drop_last()) + ", "@ + parts.last()
    }
}

/// A list of strings as `{:?}` writes it.
pub open spec fn debug_list(items: Seq<Seq<char>>) -> Seq<char> {
    "["@ + comma_joined(items.map_values(|s: Seq<char>| debug_quoted(s))) + "]"@
}

/// A string-keyed map of strings as `{:?}` writes it.
pub open spec fn debug_map(entries: Seq<(Seq<char>, String)>) -> Seq<char> {
    "{"@ + comma_joined(entries.map_values(|p: (Seq<char>, String)| debug_quoted(p.0) + ": "@ + debug_quoted(p.1@)))
        + "}"@
}

/// The key under which persistent workers share one process: the declared
/// `process_key`, else the program, arguments and environment.
pub open spec fn process_key_of(e: WorkerEntry) -> Seq<char> {
    match e.process_key {
        Some(k) => k@,
        None => e.program@ + "|"@ + debug_list(names(e.arguments@)) + "|"@ + debug_map(e.environment@),
    }
}

/// The runner an entry is registered with.
#[derive(Debug)]
pub enum ExtensionRunner {
    /// A process started for each job.
    Worker(WorkerProcessRunner),
    /// A process shared by every persistent worker of the manifest with the
    /// same key; `fresh` marks the first of them, whose runner starts it.
    Persistent { key: String, fresh: bool, runner: PersistentWorkerProcessRunner },
}

/// `r` runs `e`'s program with its arguments and environment, as the
/// `i`-th enabled worker of `es`.
pub open spec fn runs_entry(r: ExtensionRunner, es: Seq<WorkerEntry>, i: int) -> bool {
    let e = es[i];
    match r {
        ExtensionRunner::Worker(w) => !e.persistent && w.program@ == e.program@ && w.arguments@ == e.arguments@
            && w.environment@ == e.environment@,
        ExtensionRunner::Persistent { key, fresh, runner } => {
            &&& e.persistent
            &&& key@ == process_key_of(e)
            &&& fresh == !exists|j: int| 0 <= j < i && es[j].persistent && #[trigger] process_key_of(es[j]) == key@
            &&& runner.program@ == e.program@
            &&& runner.arguments@ == e.arguments@
            &&& runner.environment@ == e.environment@
        },
    }
}

/// A worker's metadata: its metadata object (`{}` when it is not one),
/// with the extension source and `worker_process` execution added where
/// absent.
pub open spec fn metadata_field(metadata: JsonView, source: Seq<char>, k: Seq<char>) -> Option<JsonView> {
    let base = match metadata {
        JsonView::Object(m) => m,
        _ => Seq::empty(),
    };
    if k == "execution"@ && lookup_last(base, k) is None {
        Some(JsonView::Str("worker_process"@))
    } else if k == "extension_source"@ && lookup_last(base, k) is None {
        Some(JsonView::Str(source))
    } else {
        lookup_last(base, k)
    }
}

/// `reg` registers the `i`-th enabled worker of `es` from `source`, with
/// a runner `wrap` made for it.
pub open spec fn registers_entry<R, F: Fn(ExtensionRunner) -> R>(
    reg: CapabilityRegistration<R>,
    es: Seq<WorkerEntry>,
    i: int,
    source: Seq<char>,
    wrap: F,
) -> bool {
    let e = es[i];
    &&& reg.capability_id@ == e.capability_id@
    &&& reg.tool_name@ == e.tool_name@
    &&& reg.description@ == e.description@
    &&& reg.parameters@ == e.parameters@
    &&& sorted_object(reg.metadata@)
    &&& forall|k: Seq<char>| #![trigger lookup(body_members(reg.metadata@), k)]
        lookup(body_members(reg.metadata@), k) == metadata_field(e.metadata@, source, k)
    &&& reg.grants == e.grants
    &&& reg.workspace_write == e.workspace_write
    &&& exists|r: ExtensionRunner| runs_entry(r, es, i) && #[trigger] call_ensures(wrap, (r,), reg.runner)
}

/// Whether a program path is absolute on this platform (`Path::is_absolute`);
/// the answer depends on the platform, so nothing is claimed of it.
#[verifier::external_body]
fn path_is_absolute(p: &str) -> bool {
    std::path::Path::new(p).is_absolute()
}

proof fn lemma_registered_from<R>(
    old: Seq<(Seq<char>, CapabilityRegistration<R>)>,
    es: Seq<WorkerEntry>,
    absolute: Seq<bool>,
    i: int,
)
    requires
        0 <= i <= es.len(),
        forall|j: int| 0 <= j < i ==> entry_failure(old, es, absolute, j) is None,
    ensures
        registered_from(old, es, absolute, 0) == registered_from(old, es, absolute, i),
    decreases i,
{
    if i > 0 {
        lemma_registered_from(old, es, absolute, i - 1);
    }
}

fn comma_join(parts: &Vec<String>) -> (r: String)
    ensures
        r@ == comma_joined(names(parts@)),
{
    let ghost ps = names(parts@);
    let mut out = String::new();
    let mut i: usize = 0;
    while i < parts.len()
        invariant
            i <= parts.len(),
            ps == names(parts@),
            out@ == comma_joined(ps.subrange(0, i as int)),
        decreases parts.len() - i,
    {
        proof {
            assert(ps.subrange(0, i + 1).drop_last() =~= ps.subrange(0, i as int));
        }
        if i > 0 {
            out.append(", ");
        } else {
            assert(out@ =~= Seq::<char>::empty());
        }
        out.append(parts[i].as_str());
        proof {
            if i == 0 {
                assert(out@ =~= ps.subrange(0, 1)[0]);
            }
        }
        i = i + 1;
    }
    proof {
        assert(ps.subrange(0, parts@.len() as int) =~= ps);
    }
    out
}

/// The key persistent workers share a process under, when none is declared.
fn default_process_key(program: &String, arguments: &Vec<String>, environment: &StrMap<String>) -> (r: String)
    ensures
        r@ == program@ + "|"@ + debug_list(names(arguments@)) + "|"@ + debug_map(environment@),
{
    let mut quoted: Vec<String> = Vec::new();
    let mut i: usize = 0;
    while i < arguments.len()
        invariant
            i <= arguments.len(),
            names(quoted@) == names(arguments@).subrange(0, i as int).map_values(|s: Seq<char>| debug_quoted(s)),
        decreases arguments.len() - i,
    {
        let ghost before = quoted@;
        quoted.push(debug_str(arguments[i].as_str()));
        proof {
            crate::text::lemma_names_push(before, quoted@.last());
            assert(before.push(quoted@.last()) =~= quoted@);
            assert(names(arguments@).subrange(0, i + 1).map_values(|s: Seq<char>| debug_quoted(s)) =~= names(
                arguments@,
            ).subrange(0, i as int).map_values(|s: Seq<char>| debug_quoted(s)).push(debug_quoted(arguments@[i as int]@)));
        }
        i = i + 1;
    }
    proof {
        assert(names(arguments@).subrange(0, arguments@.len() as int) =~= names(arguments@));
    }
    let mut pairs: Vec<String> = Vec::new();
    let n = environment.len();
    let mut j: usize = 0;
    while j < n
        invariant
            j <= n == environment@.len(),
            names(pairs@) == environment@.subrange(0, j as int).map_values(
                |p: (Seq<char>, String)| debug_quoted(p.0) + ": "@ + debug_quoted(p.1@),
            ),
        decreases n - j,
    {
        let (k, v) = environment.entry(j);
        let mut pair = debug_str(k.as_str());
        pair.append(": ");
        pair.append(debug_str(v.as_str()).as_str());
        let ghost before = pairs@;
        pairs.push(pair);
        proof {
            crate::text::lemma_names_push(before, pairs@.last());
            assert(before.push(pairs@.last()) =~= pairs@);
            assert(environment@.subrange(0, j + 1).map_values(
                |p: (Seq<char>, String)| debug_quoted(p.0) + ": "@ + debug_quoted(p.1@),
            ) =~= environment@.subrange(0, j as int).map_values(
                |p: (Seq<char>, String)| debug_quoted(p.0) + ": "@ + debug_quoted(p.1@),
            ).push(debug_quoted(k@) + ": "@ + debug_quoted(v@)));
        }
        j = j + 1;
    }
    proof {
        assert(environment@.subrange(0, n as int) =~= environment@);
    }
    let list = comma_join(&quoted);
    let map = comma_join(&pairs);
    let mut out = program.clone();
    out.append("|");
    out.append("[");
    out.append(list.as_str());
    out.append("]");
    out.append("|");
    out.append("{");
    out.append(map.as_str());
    out.append("}");
    proof {
        assert(out@ =~= program@ + "|"@ + debug_list(names(arguments@)) + "|"@ + debug_map(environment@));
    }
    out
}

proof fn lemma_metadata_keys_differ()
    ensures
        "execution"@ != "extension_source"@,
{
    reveal_strlit("execution");
    reveal_strlit("extension_source");
    assert("execution"@.len() == 9);
    assert("extension_source"@.len() == 16);
}

/// A worker's metadata with its extension source and execution kind.
fn worker_metadata(metadata: Json, source: &str) -> (r: Json)
    ensures
        sorted_object(r@),
        forall|k: Seq<char>| #![trigger lookup(body_members(r@), k)]
            lookup(body_members(r@), k) == metadata_field(metadata@, source@, k),
{
    let ghost mv0 = metadata@;
    let members = match metadata {
        Json::Object(m) => m,
        _ => Vec::new(),
    };
    proof {
        crate::json::lemma_members_view(members@);
    }
    let ghost mv = members_view(members@);
    assert(mv == match mv0 {
        JsonView::Object(m) => m,
        _ => Seq::empty(),
    });
    let mut map: StrMap<Json> = StrMap::new();
    let mut i: usize = 0;
    while i < members.len()
        invariant
            i <= members.len(),
            mv == members_view(members@),
            mv.len() == members@.len(),
            forall|x: int| 0 <= x < members@.len() ==> #[trigger] mv[x] == (members@[x].0@, members@[x].1@),
            forall|k: Seq<char>| #![trigger field_of(map@, k)]
                field_of(map@, k) == lookup_last(mv.subrange(0, i as int), k),
        decreases members.len() - i,
    {
        proof {
            assert(mv.subrange(0, i + 1).drop_last() =~= mv.subrange(0, i as int));
            assert(mv.subrange(0, i + 1).last() == mv[i as int]);
        }
        let ghost before = map@;
        map.insert(members[i].0.clone(), members[i].1.deep_clone());
        proof {
            assert forall|k: Seq<char>| #![trigger field_of(map@, k)]
                field_of(map@, k) == lookup_last(mv.subrange(0, i + 1), k) by {
                assert(field_of(before, k) == field_of(before, k));
            }
        }
        i = i + 1;
    }
    proof {
        assert(mv.subrange(0, members@.len() as int) =~= mv);
        lemma_metadata_keys_differ();
    }
    let ghost m0 = map@;
    if !map.contains_key("extension_source") {
        map.insert(owned("extension_source"), Json::String(owned(source)));
    }
    let ghost m1 = map@;
    if !map.contains_key("execution") {
        map.insert(owned("execution"), Json::String(owned("worker_process")));
    }
    let ghost fm = map@;
    let body = object_from_map(map);
    proof {
        assert forall|k: Seq<char>| #![trigger lookup(body_members(body@), k)]
            lookup(body_members(body@), k) == metadata_field(mv0, source@, k) by {
            crate::json::lemma_map_members_lookup(fm, k);
            assert(field_of(m0, k) == lookup_last(mv, k));
            assert(field_of(m1, k) == field_of(m1, k));
            assert(field_of(m0, "execution"@) == lookup_last(mv, "execution"@));
            assert(field_of(m0, "extension_source"@) == lookup_last(mv, "extension_source"@));
            assert(field_of(fm, k) == field_of(fm, k));
        }
    }
    body
}

/// Register the enabled workers of a manifest found in the extension
/// directory named `directory`. `absolute` says, enabled worker by enabled
/// worker, whether its program path is absolute. The manifest must be of
/// this version and name its directory as its source; then each enabled
/// worker is checked and registered in order, and the first that fails ends
/// the load with its error, the workers before it staying registered.
pub fn register_manifest<R, F: Fn(ExtensionRunner) -> R>(
    host: &mut CapabilityHost<R>,
    manifest: WorkerManifest,
    directory: &str,
    absolute: &Vec<bool>,
    wrap: F,
) -> (r: Result<usize, String>)
    requires
        forall|x: ExtensionRunner| call_requires(wrap, (x,)),
    ensures
        match header_problem(manifest.version, manifest.source@, directory@) {
            Some(m) => (r matches Err(e) && e@ == m) && final(host).registry.by_tool@ == old(host).registry.by_tool@,
            None => {
                let es = enabled_entries(manifest.workers@);
                let old_reg = old(host).registry.by_tool@;
                let done = registered_from(old_reg, es, absolute@, 0);
                &&& 0 <= done <= es.len()
                &&& done == es.len() <==> r is Ok
                &&& r matches Ok(n) ==> n == es.len()
                &&& r matches Err(e) ==> entry_failure(old_reg, es, absolute@, done) == Some(e@)
                &&& forall|k: Seq<char>| #![trigger find(final(host).registry.by_tool@, k)]
                    (forall|j: int| 0 <= j < done ==> #[trigger] es[j].tool_name@ != k) ==> find(
                        final(host).registry.by_tool@,
                        k,
                    ) == find(old_reg, k)
                &&& forall|j: int| 0 <= j < done ==> (find(final(host).registry.by_tool@, #[trigger] es[j].tool_name@) matches Some(reg)
                    && registers_entry(reg, es, j, seq_trim(manifest.source@), wrap))
            },
        },
{
    if manifest.version != CAPABILITY_WORKER_MANIFEST_VERSION {
        return Err(concat2("unsupported capability worker manifest version: ", decimal(manifest.version as u64).as_str()));
    }
    let source = crate::text::trim(manifest.source.as_str());
    if source.as_str().is_empty() {
        return Err("capability worker manifest source is required".to_string());
    }
    if !str_eq(source.as_str(), directory) {
        let mut m = owned("capability worker manifest source '");
        m.append(source.as_str());
        m.append("' does not match extension directory '");
        m.append(directory);
        m.append("'");
        return Err(m);
    }
    let ghost workers = manifest.workers@;
    let mut rest = manifest.workers;
    let mut enabled: Vec<WorkerEntry> = Vec::new();
    let ghost total = workers.len();
    while rest.len() > 0
        invariant
            total == workers.len(),
            rest@.len() <= total,
            rest@ == workers.subrange(total - rest@.len(), total as int),
            enabled@ == enabled_entries(workers.subrange(0, total - rest@.len())),
        decreases rest@.len(),
    {
        let ghost c = total - rest@.len();
        let e = rest.remove(0);
        proof {
            assert(workers.subrange(0, c + 1).drop_last() =~= workers.subrange(0, c));
            assert(workers.subrange(0, c + 1).last() == e);
            assert(rest@ =~= workers.subrange(c + 1, total as int));
        }
        if e.enabled {
            enabled.push(e);
        }
    }
    proof {
        assert(workers.subrange(0, total as int) =~= workers);
    }
    let ghost es = enabled@;
    let ghost old_reg = host.registry.by_tool@;
    let n = enabled.len();
    let mut seen: Vec<String> = Vec::new();
    let mut pending = enabled;
    let mut i: usize = 0;
    while i < n
        invariant
            i <= n == es.len(),
            es == enabled_entries(manifest.workers@),
            header_problem(manifest.version, manifest.source@, directory@) is None,
            old_reg == old(host).registry.by_tool@,
            pending@ == es.subrange(i as int, n as int),
            source@ == seq_trim(manifest.source@),
            forall|x: ExtensionRunner| call_requires(wrap, (x,)),
            forall|j: int| 0 <= j < i ==> entry_failure(old_reg, es, absolute@, j) is None,
            forall|key: Seq<char>| names(seen@).contains(key) <==> exists|j: int|
                0 <= j < i && es[j].persistent && #[trigger] process_key_of(es[j]) == key,
            forall|k: Seq<char>| #![trigger find(host.registry.by_tool@, k)]
                (forall|j: int| 0 <= j < i ==> #[trigger] es[j].tool_name@ != k) ==> find(host.registry.by_tool@, k)
                    == find(old_reg, k),
            forall|j: int| 0 <= j < i ==> (find(host.registry.by_tool@, #[trigger] es[j].tool_name@) matches Some(reg)
                && registers_entry(reg, es, j, source@, wrap)),
        decreases n - i,
    {
        let e = pending.remove(0);
        proof {
            assert(e == es[i as int]);
            assert(pending@ =~= es.subrange(i + 1, n as int));
            lemma_registered_from(old_reg, es, absolute@, i as int);
        }
        if crate::text::trim(e.capability_id.as_str()).as_str().is_empty() || crate::text::trim(
            e.tool_name.as_str(),
        ).as_str().is_empty() || crate::text::trim(e.description.as_str()).as_str().is_empty() {
            return Err("worker capability id, tool name and description are required".to_string());
        }
        let is_absolute = i < absolute.len() && absolute[i];
        if !is_absolute {
            return Err(concat2("worker program must be an absolute path: ", e.program.as_str()));
        }
        let metadata = worker_metadata(e.metadata, source.as_str());
        let runner = if e.persistent {
            let key = match &e.process_key {
                Some(k) => k.clone(),
                None => default_process_key(&e.program, &e.arguments, &e.environment),
            };
            let mut fresh = true;
            let mut s: usize = 0;
            while s < seen.len()
                invariant
                    s <= seen.len(),
                    fresh <==> !exists|x: int| 0 <= x < s && names(seen@)[x] == key@,
                decreases seen.len() - s,
            {
                if str_eq(seen[s].as_str(), key.as_str()) {
                    fresh = false;
                }
                proof {
                    assert(names(seen@)[s as int] == seen@[s as int]@);
                }
                s = s + 1;
            }
            let ghost seen_before = seen@;
            seen.push(key.clone());
            proof {
                crate::text::lemma_names_push(seen_before, seen@.last());
                assert(seen_before.push(seen@.last()) =~= seen@);
                assert(fresh == !names(seen_before).contains(key@));
                assert(key@ == process_key_of(es[i as int]));
                let sb = names(seen_before);
                assert(names(seen@) == sb.push(key@));
                assert forall|k2: Seq<char>| names(seen@).contains(k2) <==> exists|j: int|
                    0 <= j < i + 1 && es[j].persistent && #[trigger] process_key_of(es[j]) == k2 by {
                    if names(seen@).contains(k2) {
                        let x = choose|x: int| 0 <= x < names(seen@).len() && names(seen@)[x] == k2;
                        if x < sb.len() {
                            assert(sb[x] == k2);
                            assert(sb.contains(k2));
                            let j = choose|j: int| 0 <= j < i && es[j].persistent && #[trigger] process_key_of(es[j]) == k2;
                            assert(0 <= j < i + 1 && es[j].persistent && process_key_of(es[j]) == k2);
                        } else {
                            assert(k2 == key@);
                            assert(es[i as int].persistent && process_key_of(es[i as int]) == k2);
                        }
                    }
                    if exists|j: int| 0 <= j < i + 1 && es[j].persistent && #[trigger] process_key_of(es[j]) == k2 {
                        let j = choose|j: int| 0 <= j < i + 1 && es[j].persistent && #[trigger] process_key_of(es[j]) == k2;
                        if j < i {
                            assert(sb.contains(k2));
                            let x = choose|x: int| 0 <= x < sb.len() && sb[x] == k2;
                            assert(names(seen@)[x] == k2);
                        } else {
                            assert(names(seen@)[sb.len() as int] == k2);
                        }
                    }
                }
            }
            let runner = PersistentWorkerProcessRunner::new(e.program.clone(), crate::capability::abi::clone_strings(&e.arguments))
                .with_environment(e.environment.duplicate());
            ExtensionRunner::Persistent { key, fresh, runner }
        } else {
            proof {
                assert forall|k2: Seq<char>| names(seen@).contains(k2) <==> exists|j: int|
                    0 <= j < i + 1 && es[j].persistent && #[trigger] process_key_of(es[j]) == k2 by {
                    if exists|j: int| 0 <= j < i + 1 && es[j].persistent && #[trigger] process_key_of(es[j]) == k2 {
                        let j = choose|j: int| 0 <= j < i + 1 && es[j].persistent && #[trigger] process_key_of(es[j]) == k2;
                        assert(j < i);
                    }
                }
            }
            ExtensionRunner::Worker(WorkerProcessRunner::new(e.program, e.arguments).with_environment(e.environment))
        };
        let ghost made = runner;
        proof {
            assert(runs_entry(made, es, i as int));
        }
        let registration = CapabilityRegistration {
            capability_id: e.capability_id,
            tool_name: e.tool_name,
            description: e.description,
            parameters: e.parameters,
            metadata,
            grants: e.grants,
            workspace_write: e.workspace_write,
            runner: wrap(runner),
        };
        let ghost reg = registration;
        let ghost before = host.registry.by_tool@;
        proof {
            let e0 = es[i as int];
            assert(reg.capability_id@ == e0.capability_id@);
            assert(reg.tool_name@ == e0.tool_name@);
            assert(reg.description@ == e0.description@);
            assert(reg.parameters@ == e0.parameters@);
            assert(sorted_object(reg.metadata@));
            assert(reg.grants == e0.grants);
            assert(reg.workspace_write == e0.workspace_write);
            assert(call_ensures(wrap, (made,), reg.runner));
            assert(registers_entry(reg, es, i as int, source@, wrap));
            if exists|j: int| 0 <= j < i && #[trigger] es[j].tool_name@ == es[i as int].tool_name@ {
                let j = choose|j: int| 0 <= j < i && #[trigger] es[j].tool_name@ == es[i as int].tool_name@;
                assert(find(before, es[j].tool_name@) is Some);
            } else {
                assert(find(before, es[i as int].tool_name@) == find(old_reg, es[i as int].tool_name@));
            }
        }
        match host.register(registration) {
            Err(message) => {
                return Err(message);
            },
            Ok(()) => {},
        }
        proof {
            assert(entry_failure(old_reg, es, absolute@, i as int) is None);
            assert forall|j: int| 0 <= j < i + 1 implies (find(host.registry.by_tool@, #[trigger] es[j].tool_name@) matches Some(r)
                && registers_entry(r, es, j, source@, wrap)) by {
                if j < i {
                    assert(es[j].tool_name@ != es[i as int].tool_name@);
                }
            }
        }
        i = i + 1;
    }
    proof {
        lemma_registered_from(old_reg, es, absolute@, n as int);
    }
    Ok(n)
}

/// Register the enabled workers of a manifest found in the extension
/// directory named `directory`, asking the platform whether each program
/// path is absolute.
pub fn load_manifest<R, F: Fn(ExtensionRunner) -> R>(
    host: &mut CapabilityHost<R>,
    manifest: WorkerManifest,
    directory: &str,
    wrap: F,
) -> (r: Result<usize, String>)
    requires
        forall|x: ExtensionRunner| call_requires(wrap, (x,)),
    ensures
        match header_problem(manifest.version, manifest.source@, directory@) {
            Some(m) => (r matches Err(e) && e@ == m) && final(host).registry.by_tool@ == old(host).registry.by_tool@,
            None => exists|absolute: Seq<bool>|
                #![trigger registered_from(old(host).registry.by_tool@, enabled_entries(manifest.workers@), absolute, 0)]
            {
                let es = enabled_entries(manifest.workers@);
                let old_reg = old(host).registry.by_tool@;
                let done = registered_from(old_reg, es, absolute, 0);
                &&& absolute.len() == es.len()
                &&& 0 <= done <= es.len()
                &&& done == es.len() <==> r is Ok
                &&& r matches Ok(n) ==> n == es.len()
                &&& r matches Err(e) ==> entry_failure(old_reg, es, absolute, done) == Some(e@)
                &&& forall|k: Seq<char>| #![trigger find(final(host).registry.by_tool@, k)]
                    (forall|j: int| 0 <= j < done ==> #[trigger] es[j].tool_name@ != k) ==> find(
                        final(host).registry.by_tool@,
                        k,
                    ) == find(old_reg, k)
                &&& forall|j: int| 0 <= j < done ==> (find(final(host).registry.by_tool@, #[trigger] es[j].tool_name@) matches Some(reg)
                    && registers_entry(reg, es, j, seq_trim(manifest.source@), wrap))
            },
        },
{
    let mut absolute: Vec<bool> = Vec::new();
    let ghost workers = manifest.workers@;
    let mut i: usize = 0;
    while i < manifest.workers.len()
        invariant
            i <= manifest.workers.len(),
            workers == manifest.workers@,
            absolute@.len() == enabled_entries(workers.subrange(0, i as int)).len(),
        decreases manifest.workers.len() - i,
    {
        proof {
            assert(workers.subrange(0, i + 1).drop_last() =~= workers.subrange(0, i as int));
        }
        if manifest.workers[i].enabled {
            absolute.push(path_is_absolute(manifest.workers[i].program.as_str()));
        }
        i = i + 1;
    }
    proof {
        assert(workers.subrange(0, workers.len() as int) =~= workers);
    }
    let ghost abs = absolute@;
    let r = register_manifest(host, manifest, directory, &absolute, wrap);
    proof {
        let es = enabled_entries(workers);
        let done = registered_from(old(host).registry.by_tool@, es, abs, 0);
        assert(abs.len() == es.len());
    }
    r
}

impl WorkerManifestLoadReport {
    /// Take in the outcome of one manifest; its error is reported with the
    /// manifest's path.
    pub fn record(&mut self, path: &str, outcome: Result<usize, String>)
        requires
            outcome matches Ok(n) ==> old(self).registered + n <= usize::MAX,
        ensures
            match outcome {
                Ok(n) => final(self).registered == old(self).registered + n && final(self).errors@ == old(self).errors@,
                Err(e) => final(self).registered == old(self).registered && names(final(self).errors@) == names(
                    old(self).errors@,
                ).push(path@ + ": "@ + e@),
            },
    {
        match outcome {
            Ok(n) => {
                self.registered = self.registered + n;
            },
            Err(e) => {
                let mut m = owned(path);
                m.append(": ");
                m.append(e.as_str());
                let ghost before = self.errors@;
                self.errors.push(m);
                proof {
                    crate::text::lemma_names_push(before, self.errors@.last());
                    assert(before.push(self.errors@.last()) =~= self.errors@);
                }
            },
        }
    }
}

} // verus!
