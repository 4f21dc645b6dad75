//! Tool calls and their results, as the agent loop sees them.

use vstd::prelude::*;

use crate::json::{Json, JsonView};
use crate::text::owned;

verus! {

/// A tool call proposed by the model.
#[derive(Debug)]
pub struct ToolCall {
    pub id: String,
    pub name: String,
    pub arguments: Json,
}

/// A worker-created file that is not visible as a product artifact until the
/// Runtime validates, promotes, hashes and registers it.
#[derive(Debug, Clone)]
pub struct StagedArtifact {
    pub staging_path: String,
    pub relative_path: String,
    pub kind: String,
    pub incomplete: bool,
}

/// How a tool call ended.
#[derive(Debug, Clone, Copy, PartialEq, Eq, Structural)]
pub enum ToolExitState {
    Completed,
    Failed,
    Cancelled,
    TimedOut,
}

#[derive(Debug)]
pub struct ToolResult {
    pub tool_call_id: String,
    pub output: Json,
    pub error: Option<String>,
    pub staged_artifacts: Vec<StagedArtifact>,
    pub validation_criteria: Option<Json>,
    pub state: ToolExitState,
}

/// The output a failed tool call reports: `{"error": error, "ok": false}`.
pub open spec fn failure_output(error: Seq<char>) -> JsonView {
    JsonView::Object(seq![("error"@, JsonView::Str(error)), ("ok"@, JsonView::Bool(false))])
}

impl ToolResult {
    /// A completed call with `output`.
    pub fn success(tool_call_id: &str, output: Json) -> (r: Self)
        ensures
            r.tool_call_id@ == tool_call_id@,
            r.output == output,
            r.error is None,
            r.staged_artifacts@.len() == 0,
            r.validation_criteria is None,
            r.state == ToolExitState::Completed,
    {
        ToolResult {
            tool_call_id: owned(tool_call_id),
            output,
            error: None,
            staged_artifacts: Vec::new(),
            validation_criteria: None,
            state: ToolExitState::Completed,
        }
    }

    /// A failed call: the error is both reported and carried in the output.
    pub fn failure(tool_call_id: &str, error: String) -> (r: Self)
        ensures
            r.tool_call_id@ == tool_call_id@,
            r.output@ == failure_output(error@),
            r.error matches Some(e) && e@ == error@,
            r.staged_artifacts@.len() == 0,
            r.validation_criteria is None,
            r.state == ToolExitState::Failed,
    {
        let members = vec![
            ("error".to_string(), Json::String(owned(error.as_str()))),
            ("ok".to_string(), Json::Bool(false)),
        ];
        let output = Json::Object(members);
        proof {
            reveal_strlit("error");
            reveal_strlit("ok");
            crate::json::lemma_members_view(members@);
            assert(crate::json::members_view(members@) =~= seq![
                ("error"@, JsonView::Str(error@)),
                ("ok"@, JsonView::Bool(false)),
            ]);
        }
        ToolResult {
            tool_call_id: owned(tool_call_id),
            output,
            error: Some(error),
            staged_artifacts: Vec::new(),
            validation_criteria: None,
            state: ToolExitState::Failed,
        }
    }
}

} // verus!
