//! The product's built-in capabilities: reading a workspace file, staging a
//! file artifact, and the interaction tools the Runtime itself answers.
//!
//! The built-ins run in process. What they decide — which arguments they
//! need, which grants they check, what they report — is here; the file
//! system work they do between those decisions is the host's.

use vstd::prelude::*;

use crate::binary64::Binary64;
use crate::capability::abi::{
    CapabilityArtifact, CapabilityExitState, CapabilityGrants, CapabilityJob, CapabilityProgress,
    CapabilityResult,
};
use crate::capability::host::{CapabilityHost, CapabilityRegistration, CapabilityRegistry};
use crate::capability::runners::is_failure;
use crate::json::{Json, JsonView};
use crate::strmap::find;
use crate::text::{concat2, owned};

verus! {

/// Which built-in runs a registration.
#[derive(Debug, Clone, Copy, PartialEq, Eq, Structural)]
pub enum NativeCapability {
    ReadFile,
    WriteFile,
    /// An interaction the Runtime answers; a runner never executes it.
    Interaction,
}

/// In-process runner for small, dependency-free trusted operations. A
/// cancelled run never reaches the handler.
pub struct NativeCapabilityRunner<F> {
    pub handler: F,
}

impl<F: Fn(&CapabilityJob, Binary64) -> CapabilityResult> NativeCapabilityRunner<F> {
    pub fn new(handler: F) -> (r: Self)
        ensures
            r.handler == handler,
    {
        NativeCapabilityRunner { handler }
    }

    pub fn run(&self, job: &CapabilityJob, cancelled: bool, now: Binary64) -> (r: CapabilityResult)
        requires
            !cancelled ==> (self.handler).requires((job, now)),
        ensures
            cancelled ==> r.is_bare(job.job_id@, CapabilityExitState::Cancelled, now) && r.result is None
                && r.diagnostics is None,
            !cancelled ==> (self.handler).ensures((job, now), r),
    {
        if cancelled {
            return CapabilityResult::cancelled(job.job_id.as_str(), now);
        }
        (self.handler)(job, now)
    }
}

/// The bit pattern of the binary64 value 1.0.
pub open spec fn one_bits() -> u64 {
    0x3ff0_0000_0000_0000
}

/// The progress a read reports as it starts.
pub fn reading_progress(job_id: &str) -> (p: CapabilityProgress)
    ensures
        p.job_id@ == job_id@,
        p.fraction == Binary64::zero(),
        p.stage matches Some(s) && s@ == "reading"@,
        p.message is None,
{
    CapabilityProgress {
        job_id: owned(job_id),
        fraction: Binary64::from_bits(0),
        stage: Some("reading".to_string()),
        message: None,
    }
}

/// The progress a write reports once its artifact is staged.
pub fn staged_progress(job_id: &str) -> (p: CapabilityProgress)
    ensures
        p.job_id@ == job_id@,
        p.fraction.bits == one_bits(),
        p.stage matches Some(s) && s@ == "staged"@,
        p.message is None,
{
    CapabilityProgress {
        job_id: owned(job_id),
        fraction: Binary64::from_bits(0x3ff0_0000_0000_0000),
        stage: Some("staged".to_string()),
        message: None,
    }
}

/// The workspace path a read asks for, or its refusal when it names none.
pub fn read_request(job: &CapabilityJob, now: Binary64) -> (r: Result<String, CapabilityResult>)
    ensures
        match job.arguments@.str_field("path"@) {
            Some(p) => r matches Ok(path) && path@ == p,
            None => r matches Err(f) && is_failure(f, job.job_id@, "path is required"@, "arguments"@, now),
        },
{
    match job.arguments.str_field("path") {
        Some(p) => Ok(owned(p)),
        None => Err(CapabilityResult::failed(job.job_id.as_str(), "path is required", Some("arguments"), now)),
    }
}

/// How reading the resolved path went.
#[derive(Debug)]
pub enum ReadOutcome {
    /// The path resolves outside every read root.
    OutsideGrants,
    /// The path could not be resolved or read.
    Failed(String),
    Read(String),
}

/// The result of a read: the text, or why there is none.
pub fn read_result(job_id: &str, outcome: ReadOutcome, now: Binary64) -> (r: CapabilityResult)
    ensures
        match outcome {
            ReadOutcome::OutsideGrants => is_failure(r, job_id@, "path is outside read grants"@, "grant_denied"@, now),
            ReadOutcome::Failed(e) => is_failure(r, job_id@, e@, "read_failed"@, now),
            ReadOutcome::Read(text) => r.is_bare(job_id@, CapabilityExitState::Completed, now) && r.diagnostics is None
                && (r.result matches Some(v) && v@ == JsonView::Object(seq![
                ("ok"@, JsonView::Bool(true)),
                ("text"@, JsonView::Str(text@)),
            ])),
        },
{
    match outcome {
        ReadOutcome::OutsideGrants => CapabilityResult::failed(
            job_id,
            "path is outside read grants",
            Some("grant_denied"),
            now,
        ),
        ReadOutcome::Failed(e) => CapabilityResult::failed(job_id, e.as_str(), Some("read_failed"), now),
        ReadOutcome::Read(text) => {
            let ghost t = text@;
            let members = vec![("ok".to_string(), Json::Bool(true)), ("text".to_string(), Json::String(text))];
            proof {
                crate::json::lemma_members_view(members@);
                assert(crate::json::members_view(members@) =~= seq![
                    ("ok"@, JsonView::Bool(true)),
                    ("text"@, JsonView::Str(t)),
                ]);
            }
            CapabilityResult::completed(job_id, Json::Object(members), now)
        },
    }
}

/// What a write stages: the workspace-relative path, the content, and the
/// job's staging directory.
#[derive(Debug)]
pub struct WriteRequest {
    pub relative_path: String,
    pub content: String,
    pub staging_dir: String,
}

/// A write's request, or its result when it cannot go ahead: a cancelled
/// run, a missing path or content, or no staging directory.
pub fn write_request(job: &CapabilityJob, cancelled: bool, now: Binary64) -> (r: Result<WriteRequest, CapabilityResult>)
    ensures
        cancelled ==> (r matches Err(c) && c.is_bare(job.job_id@, CapabilityExitState::Cancelled, now)
            && c.diagnostics is None),
        !cancelled && job.arguments@.str_field("path"@) is None ==> (r matches Err(f) && is_failure(
            f,
            job.job_id@,
            "path is required"@,
            "arguments"@,
            now,
        )),
        !cancelled && job.arguments@.str_field("path"@) is Some && job.arguments@.str_field("content"@) is None
            ==> (r matches Err(f) && is_failure(f, job.job_id@, "content is required"@, "arguments"@, now)),
        !cancelled && job.arguments@.str_field("path"@) is Some && job.arguments@.str_field("content"@) is Some
            && job.artifact_staging_dir is None ==> (r matches Err(f) && is_failure(
            f,
            job.job_id@,
            "artifact staging is unavailable"@,
            "staging"@,
            now,
        )),
        r matches Ok(w) ==> !cancelled && job.arguments@.str_field("path"@) == Some(w.relative_path@)
            && job.arguments@.str_field("content"@) == Some(w.content@) && job.artifact_staging_dir == Some(
            w.staging_dir,
        ),
        !cancelled && job.arguments@.str_field("path"@) is Some && job.arguments@.str_field("content"@) is Some
            && job.artifact_staging_dir is Some ==> r is Ok,
{
    let id = job.job_id.as_str();
    if cancelled {
        return Err(CapabilityResult::cancelled(id, now));
    }
    let relative_path = match job.arguments.str_field("path") {
        Some(p) => owned(p),
        None => {
            return Err(CapabilityResult::failed(id, "path is required", Some("arguments"), now));
        },
    };
    let content = match job.arguments.str_field("content") {
        Some(c) => owned(c),
        None => {
            return Err(CapabilityResult::failed(id, "content is required", Some("arguments"), now));
        },
    };
    let staging_dir = match &job.artifact_staging_dir {
        Some(d) => d.clone(),
        None => {
            return Err(
                CapabilityResult::failed(id, "artifact staging is unavailable", Some("staging"), now),
            );
        },
    };
    Ok(WriteRequest { relative_path, content, staging_dir })
}

/// The result of a write: the staged artifact, or the write error.
pub fn write_result(job_id: &str, relative_path: String, staged_path: String, error: Option<String>, now: Binary64) -> (r: CapabilityResult)
    ensures
        match error {
            Some(e) => is_failure(r, job_id@, e@, "write_failed"@, now),
            None => {
                &&& r.state == CapabilityExitState::Completed
                &&& r.job_id@ == job_id@
                &&& r.diagnostics is None
                &&& r.result matches Some(v) && v@ == JsonView::Object(seq![("ok"@, JsonView::Bool(true))])
                &&& r.artifacts@.len() == 1
                &&& r.artifacts@[0] == (CapabilityArtifact {
                    staging_path: staged_path,
                    relative_path,
                    kind: r.artifacts@[0].kind,
                    sha256: None,
                    size: None,
                    incomplete: false,
                })
                &&& r.artifacts@[0].kind matches Some(k) && k@ == "file"@
            },
        },
{
    match error {
        Some(e) => CapabilityResult::failed(job_id, e.as_str(), Some("write_failed"), now),
        None => {
            let members = vec![("ok".to_string(), Json::Bool(true))];
            proof {
                crate::json::lemma_members_view(members@);
                assert(crate::json::members_view(members@) =~= seq![("ok"@, JsonView::Bool(true))]);
            }
            CapabilityResult::completed(job_id, Json::Object(members), now).with_artifact(
                CapabilityArtifact {
                    staging_path: staged_path,
                    relative_path,
                    kind: Some("file".to_string()),
                    sha256: None,
                    size: None,
                    incomplete: false,
                },
            )
        },
    }
}

/// An interaction capability reached a runner: refused, the Runtime answers
/// interactions itself.
pub fn interaction_result(job_id: &str, now: Binary64) -> (r: CapabilityResult)
    ensures
        is_failure(
            r,
            job_id@,
            "interaction capabilities must be executed by RuntimeHost"@,
            "runtime_boundary"@,
            now,
        ),
{
    CapabilityResult::failed(
        job_id,
        "interaction capabilities must be executed by RuntimeHost",
        Some("runtime_boundary"),
        now,
    )
}

fn str_json(s: &str) -> (j: Json)
    ensures
        j@ == JsonView::Str(s@),
{
    Json::String(owned(s))
}

fn obj(members: Vec<(String, Json)>) -> (j: Json)
    ensures
        j@ == JsonView::Object(crate::json::members_view(members@)),
{
    Json::Object(members)
}

fn arr(items: Vec<Json>) -> (j: Json)
    ensures
        j@ == JsonView::Array(crate::json::items_view(items@)),
{
    Json::Array(items)
}

/// `{"type": "string"}` and its kin.
fn typed(kind: &str) -> (j: Json)
    ensures
        j@ == JsonView::Object(seq![("type"@, JsonView::Str(kind@))]),
{
    let members = vec![("type".to_string(), str_json(kind))];
    proof {
        crate::json::lemma_members_view(members@);
        assert(crate::json::members_view(members@) =~= seq![("type"@, JsonView::Str(kind@))]);
    }
    obj(members)
}

/// Registration metadata: the capability list, category, approval need and
/// risk level.
fn metadata(capability: &str, category: &str, requires_approval: bool, risk_level: &str) -> (j: Json)
    ensures
        j@.str_field("category"@) == Some(category@),
        j@.str_field("risk_level"@) == Some(risk_level@),
        j@.bool_field("requires_approval"@) == Some(requires_approval),
        j@.bool_field("model_visible"@) is None,
{
    let capabilities = vec![str_json(capability)];
    let members = vec![
        ("capabilities".to_string(), arr(capabilities)),
        ("category".to_string(), str_json(category)),
        ("requires_approval".to_string(), Json::Bool(requires_approval)),
        ("risk_level".to_string(), str_json(risk_level)),
    ];
    let j = obj(members);
    proof {
        reveal_strlit("capabilities");
        reveal_strlit("category");
        reveal_strlit("requires_approval");
        reveal_strlit("risk_level");
        reveal_strlit("model_visible");
        crate::json::lemma_members_view(members@);
        let m = crate::json::members_view(members@);
        reveal_with_fuel(crate::json::lookup, 5);
        assert(m[0].0 == "capabilities"@);
        assert(m[1].0 == "category"@);
        assert(m[2].0 == "requires_approval"@);
        assert(m[3].0 == "risk_level"@);
        assert(m.drop_first()[0] == m[1]);
        assert(m.drop_first().drop_first()[0] == m[2]);
        assert(m.drop_first().drop_first().drop_first()[0] == m[3]);
        assert(m.drop_first().drop_first().drop_first().drop_first().len() == 0);
    }
    j
}

/// The texts of a list of string slices.
pub open spec fn str_names(s: Seq<&str>) -> Seq<Seq<char>> {
    s.map_values(|x: &str| x@)
}

/// The texts of a list of pairs of string slices.
pub open spec fn str_pairs(s: Seq<(&str, &str)>) -> Seq<(Seq<char>, Seq<char>)> {
    s.map_values(|p: (&str, &str)| (p.0@, p.1@))
}

/// Whether `k` occurs among `names`.
pub open spec fn listed(names: Seq<Seq<char>>, k: Seq<char>) -> bool
    decreases names.len(),
{
    names.len() > 0 && (names.last() == k || listed(names.drop_last(), k))
}

/// `{"type": kind}`.
pub open spec fn typed_view(kind: Seq<char>) -> JsonView {
    JsonView::Object(seq![("type"@, JsonView::Str(kind))])
}

/// The declared type of property `k`: that of the last optional entry
/// naming it; otherwise `string` for a required name; otherwise none.
pub open spec fn property_kind(
    required: Seq<Seq<char>>,
    optional: Seq<(Seq<char>, Seq<char>)>,
    k: Seq<char>,
) -> Option<Seq<char>>
    decreases optional.len(),
{
    if optional.len() == 0 {
        if listed(required, k) {
            Some("string"@)
        } else {
            None
        }
    } else if optional.last().0 == k {
        Some(optional.last().1)
    } else {
        property_kind(required, optional.drop_last(), k)
    }
}

/// The schema of property `k`, where it has one.
pub open spec fn property_schema(
    required: Seq<Seq<char>>,
    optional: Seq<(Seq<char>, Seq<char>)>,
    k: Seq<char>,
) -> Option<JsonView> {
    match property_kind(required, optional, k) {
        Some(kind) => Some(typed_view(kind)),
        None => None,
    }
}

/// `j` is the object schema `{"properties": .., "required": [..], "type":
/// "object"}`: its properties, in ascending key order, give each required
/// name the type `string` and each optional name its declared type; the
/// required list is the required names in order.
pub open spec fn is_parameter_schema(
    j: JsonView,
    required: Seq<Seq<char>>,
    optional: Seq<(Seq<char>, Seq<char>)>,
) -> bool {
    match j {
        JsonView::Object(m) => {
            &&& m.len() == 3
            &&& m[0].0 == "properties"@
            &&& m[1] == ("required"@, JsonView::Array(required.map_values(|n: Seq<char>| JsonView::Str(n))))
            &&& m[2] == ("type"@, JsonView::Str("object"@))
            &&& (m[0].1 matches JsonView::Object(props) && crate::strmap::ascending(props) && forall|k: Seq<char>|
                #[trigger] crate::json::lookup(props, k) == property_schema(required, optional, k))
        },
        _ => false,
    }
}

/// What a map holds under `k`, by its view.
pub open spec fn found_view(m: Seq<(Seq<char>, Json)>, k: Seq<char>) -> Option<JsonView> {
    match crate::strmap::find(m, k) {
        Some(v) => Some(v@),
        None => None,
    }
}

/// A parameter schema: an object whose properties are the required names,
/// each of type `string`, and the optional names with their declared types;
/// only the required names are listed as required.
fn string_parameters(required: Vec<&str>, optional: Vec<(&str, &str)>) -> (j: Json)
    ensures
        is_parameter_schema(j@, str_names(required@), str_pairs(optional@)),
{
    let ghost rn = str_names(required@);
    let ghost on = str_pairs(optional@);
    let mut properties: crate::strmap::StrMap<Json> = crate::strmap::StrMap::new();
    let mut required_json: Vec<Json> = Vec::new();
    let mut i: usize = 0;
    while i < required.len()
        invariant
            i <= required.len(),
            rn == str_names(required@),
            forall|k: Seq<char>|
                #![trigger found_view(properties@, k)]
                found_view(properties@, k) == if listed(rn.take(i as int), k) {
                    Some(typed_view("string"@))
                } else {
                    None
                },
            crate::json::items_view(required_json@) == rn.take(i as int).map_values(
                |n: Seq<char>| JsonView::Str(n),
            ),
        decreases required.len() - i,
    {
        let ghost before = properties@;
        let ghost items_before = required_json@;
        let t = typed("string");
        properties.insert(owned(required[i]), t);
        let item = str_json(required[i]);
        proof {
            crate::json::lemma_items_view_push(items_before, item);
        }
        required_json.push(item);
        proof {
            assert(rn.take(i + 1).drop_last() =~= rn.take(i as int));
            assert(rn.take(i + 1).last() == required@[i as int]@);
            assert forall|k: Seq<char>| #![trigger found_view(properties@, k)]
                found_view(properties@, k) == if listed(rn.take(i + 1), k) {
                    Some(typed_view("string"@))
                } else {
                    None
                } by {
                match crate::strmap::find(properties@, k) {
                    Some(v) => {},
                    None => {},
                }
                if k != required@[i as int]@ {
                    assert(found_view(before, k) == found_view(properties@, k));
                }
            }
            assert(crate::json::items_view(required_json@) =~= rn.take(i + 1).map_values(
                |n: Seq<char>| JsonView::Str(n),
            ));
        }
        i = i + 1;
    }
    proof {
        assert(rn.take(required@.len() as int) =~= rn);
        assert(on.take(0) =~= Seq::<(Seq<char>, Seq<char>)>::empty());
    }
    let mut k: usize = 0;
    while k < optional.len()
        invariant
            k <= optional.len(),
            on == str_pairs(optional@),
            rn.len() == required@.len(),
            forall|x: Seq<char>|
                #![trigger found_view(properties@, x)]
                found_view(properties@, x) == property_schema(rn, on.take(k as int), x),
        decreases optional.len() - k,
    {
        let ghost before = properties@;
        let t = typed(optional[k].1);
        properties.insert(owned(optional[k].0), t);
        proof {
            assert forall|x: Seq<char>| #![trigger found_view(properties@, x)]
                x != optional@[k as int].0@ implies found_view(properties@, x) == found_view(before, x) by {
                match crate::strmap::find(properties@, x) {
                    Some(v) => {},
                    None => {},
                }
            }
            assert(on.take(k + 1).drop_last() =~= on.take(k as int));
            assert(on.take(k + 1).last() == (optional@[k as int].0@, optional@[k as int].1@));
        }
        k = k + 1;
    }
    let ghost pm = properties@;
    let props = crate::json::object_from_map(properties);
    let members = vec![
        ("properties".to_string(), props),
        ("required".to_string(), arr(required_json)),
        ("type".to_string(), str_json("object")),
    ];
    proof {
        crate::json::lemma_members_view(members@);
        assert(on.take(optional@.len() as int) =~= on);
        assert forall|x: Seq<char>|
            #[trigger] crate::json::lookup(crate::json::map_members(pm), x) == property_schema(rn, on, x) by {
            crate::json::lemma_map_members_lookup(pm, x);
            assert(found_view(pm, x) == property_schema(rn, on, x));
        }
    }
    obj(members)
}

/// The registration of a built-in.
pub open spec fn is_native_registration(
    r: CapabilityRegistration<NativeCapability>,
    capability_id: Seq<char>,
    tool_name: Seq<char>,
    runner: NativeCapability,
    workspace_write: bool,
) -> bool {
    &&& r.capability_id@ == capability_id
    &&& r.tool_name@ == tool_name
    &&& r.runner == runner
    &&& r.workspace_write == workspace_write
    &&& r.grants.is_empty_grant()
    &&& r.metadata@.bool_field("model_visible"@) is None
}

/// The file reader's registration.
pub open spec fn is_read_file_registration(r: CapabilityRegistration<NativeCapability>) -> bool {
    &&& is_native_registration(r, "file.read"@, "read_file"@, NativeCapability::ReadFile, false)
    &&& r.description@ == "Read a UTF-8 text file from the trusted workspace."@
    &&& is_parameter_schema(r.parameters@, seq!["path"@], Seq::empty())
    &&& r.metadata@.str_field("category"@) == Some("read"@)
    &&& r.metadata@.str_field("risk_level"@) == Some("low"@)
    &&& r.metadata@.bool_field("requires_approval"@) == Some(false)
}

/// The file writer's registration.
pub open spec fn is_write_file_registration(r: CapabilityRegistration<NativeCapability>) -> bool {
    &&& is_native_registration(r, "file.write"@, "write_file"@, NativeCapability::WriteFile, true)
    &&& r.description@ == "Create a UTF-8 file artifact in the trusted workspace."@
    &&& is_parameter_schema(r.parameters@, seq!["path"@, "content"@], Seq::empty())
    &&& r.metadata@.str_field("category"@) == Some("filesystem"@)
    &&& r.metadata@.str_field("risk_level"@) == Some("medium"@)
    &&& r.metadata@.bool_field("requires_approval"@) == Some(true)
}

/// The registration of interaction tool `tool_name`, with the given
/// description and parameter schema.
pub open spec fn is_interaction_registration(
    r: CapabilityRegistration<NativeCapability>,
    tool_name: Seq<char>,
    description: Seq<char>,
    required: Seq<Seq<char>>,
    optional: Seq<(Seq<char>, Seq<char>)>,
) -> bool {
    &&& is_native_registration(r, "interaction."@ + tool_name, tool_name, NativeCapability::Interaction, false)
    &&& r.description@ == description
    &&& is_parameter_schema(r.parameters@, required, optional)
    &&& r.metadata@.str_field("category"@) == Some("interaction"@)
}

/// The file reader: reads a UTF-8 file of the workspace; low risk, no
/// approval.
pub fn read_file_registration() -> (r: CapabilityRegistration<NativeCapability>)
    ensures
        is_read_file_registration(r),
{
    let required = vec!["path"];
    let optional: Vec<(&str, &str)> = Vec::new();
    proof {
        assert(str_names(required@) =~= seq!["path"@]);
        assert(str_pairs(optional@) =~= Seq::<(Seq<char>, Seq<char>)>::empty());
    }
    let parameters = string_parameters(required, optional);
    CapabilityRegistration {
        capability_id: "file.read".to_string(),
        tool_name: "read_file".to_string(),
        description: "Read a UTF-8 text file from the trusted workspace.".to_string(),
        parameters,
        metadata: metadata("file.read", "read", false, "low"),
        grants: CapabilityGrants::read_only(),
        workspace_write: false,
        runner: NativeCapability::ReadFile,
    }
}

/// The file writer: stages a UTF-8 file artifact for the Runtime to
/// promote; medium risk, approval required.
pub fn write_file_registration() -> (r: CapabilityRegistration<NativeCapability>)
    ensures
        is_write_file_registration(r),
{
    let required = vec!["path", "content"];
    let optional: Vec<(&str, &str)> = Vec::new();
    proof {
        assert(str_names(required@) =~= seq!["path"@, "content"@]);
        assert(str_pairs(optional@) =~= Seq::<(Seq<char>, Seq<char>)>::empty());
    }
    let parameters = string_parameters(required, optional);
    CapabilityRegistration {
        capability_id: "file.write".to_string(),
        tool_name: "write_file".to_string(),
        description: "Create a UTF-8 file artifact in the trusted workspace.".to_string(),
        parameters,
        metadata: metadata("file.write", "filesystem", true, "medium"),
        grants: CapabilityGrants::default(),
        workspace_write: true,
        runner: NativeCapability::WriteFile,
    }
}

/// An interaction tool `interaction.<tool_name>`; low risk, no approval.
pub fn interaction_registration(tool_name: &str, description: &str, parameters: Json) -> (r: CapabilityRegistration<
    NativeCapability,
>)
    ensures
        is_native_registration(
            r,
            "interaction."@ + tool_name@,
            tool_name@,
            NativeCapability::Interaction,
            false,
        ),
        r.description@ == description@,
        r.parameters == parameters,
        r.metadata@.str_field("category"@) == Some("interaction"@),
{
    CapabilityRegistration {
        capability_id: concat2("interaction.", tool_name),
        tool_name: owned(tool_name),
        description: owned(description),
        parameters,
        metadata: metadata("user.interaction", "interaction", false, "low"),
        grants: CapabilityGrants::read_only(),
        workspace_write: false,
        runner: NativeCapability::Interaction,
    }
}

/// The tools the product's host offers.
pub open spec fn is_product_tool(k: Seq<char>) -> bool {
    ||| k == "read_file"@
    ||| k == "write_file"@
    ||| k == "request_directory"@
    ||| k == "ask_user"@
    ||| k == "propose_plan"@
}

/// What the product's host holds: exactly its five tools, each with its
/// registration.
pub open spec fn is_product_registry(m: Seq<(Seq<char>, CapabilityRegistration<NativeCapability>)>) -> bool {
    &&& forall|k: Seq<char>| #[trigger] find(m, k) is Some <==> is_product_tool(k)
    &&& find(m, "read_file"@) matches Some(reg) && is_read_file_registration(reg)
    &&& find(m, "write_file"@) matches Some(reg) && is_write_file_registration(reg)
    &&& find(m, "request_directory"@) matches Some(reg) && is_interaction_registration(
        reg,
        "request_directory"@,
        "Request access to an additional directory."@,
        seq!["reason"@],
        seq![("path"@, "string"@), ("writable"@, "boolean"@)],
    )
    &&& find(m, "ask_user"@) matches Some(reg) && is_interaction_registration(
        reg,
        "ask_user"@,
        "Ask the user a focused question before continuing."@,
        seq!["question"@],
        seq![("options"@, "array"@), ("allow_text"@, "boolean"@)],
    )
    &&& find(m, "propose_plan"@) matches Some(reg) && is_interaction_registration(
        reg,
        "propose_plan"@,
        "Present a plan and wait for user approval."@,
        seq!["plan"@],
        Seq::empty(),
    )
}

impl CapabilityHost<NativeCapability> {
    /// The product's host: the file reader and writer and the directory,
    /// question and plan interactions. Their tool names are distinct, so it
    /// is always built.
    pub fn product_defaults() -> (r: Result<Self, String>)
        ensures
            r is Ok,
            r matches Ok(h) ==> is_product_registry(h.registry.by_tool@),
    {
        let mut host: CapabilityHost<NativeCapability> = CapabilityHost::new();
        proof {
            reveal_strlit("read_file");
            reveal_strlit("write_file");
            reveal_strlit("request_directory");
            reveal_strlit("ask_user");
            reveal_strlit("propose_plan");
            reveal_strlit("file.read");
            reveal_strlit("file.write");
            reveal_strlit("interaction.");
            crate::text::lemma_trim_nonempty("read_file"@);
            crate::text::lemma_trim_nonempty("write_file"@);
            crate::text::lemma_trim_nonempty("request_directory"@);
            crate::text::lemma_trim_nonempty("ask_user"@);
            crate::text::lemma_trim_nonempty("propose_plan"@);
            crate::text::lemma_trim_nonempty("file.read"@);
            crate::text::lemma_trim_nonempty("file.write"@);
            crate::text::lemma_trim_nonempty("interaction."@ + "request_directory"@);
            crate::text::lemma_trim_nonempty("interaction."@ + "ask_user"@);
            crate::text::lemma_trim_nonempty("interaction."@ + "propose_plan"@);
        }
        let read = read_file_registration();
        let ghost read_v = read;
        assert(find(host.registry.by_tool@, "read_file"@) is None);
        host.register(read)?;
        let write = write_file_registration();
        let ghost write_v = write;
        assert(find(host.registry.by_tool@, "write_file"@) is None);
        host.register(write)?;
        let required = vec!["reason"];
        let optional: Vec<(&str, &str)> = vec![("path", "string"), ("writable", "boolean")];
        proof {
            assert(str_names(required@) =~= seq!["reason"@]);
            assert(str_pairs(optional@) =~= seq![("path"@, "string"@), ("writable"@, "boolean"@)]);
        }
        let directory = interaction_registration(
            "request_directory",
            "Request access to an additional directory.",
            string_parameters(required, optional),
        );
        let ghost directory_v = directory;
        assert(find(host.registry.by_tool@, "request_directory"@) is None);
        host.register(directory)?;
        let required = vec!["question"];
        let optional: Vec<(&str, &str)> = vec![("options", "array"), ("allow_text", "boolean")];
        proof {
            assert(str_names(required@) =~= seq!["question"@]);
            assert(str_pairs(optional@) =~= seq![("options"@, "array"@), ("allow_text"@, "boolean"@)]);
        }
        let ask = interaction_registration(
            "ask_user",
            "Ask the user a focused question before continuing.",
            string_parameters(required, optional),
        );
        let ghost ask_v = ask;
        assert(find(host.registry.by_tool@, "ask_user"@) is None);
        host.register(ask)?;
        let required = vec!["plan"];
        let optional: Vec<(&str, &str)> = Vec::new();
        proof {
            assert(str_names(required@) =~= seq!["plan"@]);
            assert(str_pairs(optional@) =~= Seq::<(Seq<char>, Seq<char>)>::empty());
        }
        let plan = interaction_registration(
            "propose_plan",
            "Present a plan and wait for user approval.",
            string_parameters(required, optional),
        );
        let ghost plan_v = plan;
        assert(find(host.registry.by_tool@, "propose_plan"@) is None);
        host.register(plan)?;
        proof {
            let m = host.registry.by_tool@;
            assert(find(m, "read_file"@) == Some(read_v));
            assert(find(m, "write_file"@) == Some(write_v));
            assert(find(m, "request_directory"@) == Some(directory_v));
            assert(find(m, "ask_user"@) == Some(ask_v));
            assert(find(m, "propose_plan"@) == Some(plan_v));
        }
        Ok(host)
    }
}

} // verus!
