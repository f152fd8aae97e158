//! The agent state bootstrap keeps its payload small: the free text of work
//! items, turn records and runtime failures is cut to preview budgets, and
//! the lists of a failure artifact to a fixed number of entries.
use vstd::prelude::*;
use crate::json::JsonValue;
use crate::state::{
    bootstrap_preview, truncate_state_bootstrap_string, STATE_BOOTSTRAP_FAILURE_ARTIFACT_ENTRY_LIMIT,
    STATE_BOOTSTRAP_LAST_TURN_TEXT_LIMIT, STATE_BOOTSTRAP_TEXT_PREVIEW_LIMIT,
};

verus! {

// ------------------------------------------------------------- the text

/// The preview of a string within `limit` characters.
pub open spec fn cut(s: String, limit: usize) -> Seq<char> {
    bootstrap_preview(s@, limit as nat)
}

/// `o` previewed within `limit`: `None` stays `None`.
pub open spec fn cut_opt(o: Option<String>, limit: usize) -> Option<Seq<char>> {
    match o {
        Some(s) => Some(cut(s, limit)),
        None => None,
    }
}

/// The characters of an optional string.
pub open spec fn chars_opt(o: Option<String>) -> Option<Seq<char>> {
    match o {
        Some(s) => Some(s@),
        None => None,
    }
}

fn cut_option(o: Option<String>, limit: usize) -> (r: Option<String>)
    ensures
        chars_opt(r) == cut_opt(o, limit),
{
    match o {
        Some(s) => Some(truncate_state_bootstrap_string(s.as_str(), limit)),
        None => None,
    }
}

fn preview(s: &String) -> (r: String)
    ensures
        r@ == cut(*s, STATE_BOOTSTRAP_TEXT_PREVIEW_LIMIT),
{
    truncate_state_bootstrap_string(s.as_str(), STATE_BOOTSTRAP_TEXT_PREVIEW_LIMIT)
}

fn preview_opt(o: Option<String>) -> (r: Option<String>)
    ensures
        chars_opt(r) == cut_opt(o, STATE_BOOTSTRAP_TEXT_PREVIEW_LIMIT),
{
    cut_option(o, STATE_BOOTSTRAP_TEXT_PREVIEW_LIMIT)
}

// ------------------------------------------------------------ work items

/// The free text of a work item in the state bootstrap.
#[derive(Debug, Clone, PartialEq, Eq)]
pub struct WorkItemText {
    pub objective: String,
    pub blocked_by: Option<String>,
    pub result_summary: Option<String>,
}

/// The objective, the blocker and the result summary of a work item, each
/// cut to the text preview budget.
pub fn slim_state_work_item_dto(item: WorkItemText) -> (r: WorkItemText)
    ensures
        r.objective@ == cut(item.objective, STATE_BOOTSTRAP_TEXT_PREVIEW_LIMIT),
        chars_opt(r.blocked_by) == cut_opt(item.blocked_by, STATE_BOOTSTRAP_TEXT_PREVIEW_LIMIT),
        chars_opt(r.result_summary) == cut_opt(item.result_summary, STATE_BOOTSTRAP_TEXT_PREVIEW_LIMIT),
{
    WorkItemText {
        objective: preview(&item.objective),
        blocked_by: preview_opt(item.blocked_by),
        result_summary: preview_opt(item.result_summary),
    }
}

// ------------------------------------------------------------ turn records

/// The checkpoint a turn ended on.
#[derive(Debug, Clone, PartialEq, Eq)]
pub struct TurnCheckpoint {
    pub text: String,
}

/// The free text of how an agent's last turn ended.
#[derive(Debug, Clone, PartialEq, Eq)]
pub struct TurnTerminalRecord {
    pub reason: Option<String>,
    pub last_assistant_message: Option<String>,
    pub checkpoint: Option<TurnCheckpoint>,
}

/// The reason cut to the preview budget; the last assistant message and
/// the checkpoint text to the larger last-turn budget.
pub fn slim_state_turn_terminal_record(record: TurnTerminalRecord) -> (r: TurnTerminalRecord)
    ensures
        chars_opt(r.reason) == cut_opt(record.reason, STATE_BOOTSTRAP_TEXT_PREVIEW_LIMIT),
        chars_opt(r.last_assistant_message) == cut_opt(
            record.last_assistant_message,
            STATE_BOOTSTRAP_LAST_TURN_TEXT_LIMIT,
        ),
        match record.checkpoint {
            Some(c) => r.checkpoint matches Some(d) && d.text@ == cut(c.text, STATE_BOOTSTRAP_LAST_TURN_TEXT_LIMIT),
            None => r.checkpoint is None,
        },
{
    let checkpoint = match record.checkpoint {
        Some(c) => Some(
            TurnCheckpoint {
                text: truncate_state_bootstrap_string(c.text.as_str(), STATE_BOOTSTRAP_LAST_TURN_TEXT_LIMIT),
            },
        ),
        None => None,
    };
    TurnTerminalRecord {
        reason: preview_opt(record.reason),
        last_assistant_message: cut_option(record.last_assistant_message, STATE_BOOTSTRAP_LAST_TURN_TEXT_LIMIT),
        checkpoint,
    }
}

// -------------------------------------------------------- runtime failures

/// Where a failure happened: the ids of what was running.
#[derive(Debug, Clone, PartialEq, Eq)]
pub struct FailureContext {
    pub message_id: Option<String>,
    pub turn_id: Option<String>,
    pub run_id: Option<String>,
    pub work_item_id: Option<String>,
    pub tool_execution_id: Option<String>,
    pub task_id: Option<String>,
    pub correlation_id: Option<String>,
    pub causation_id: Option<String>,
    pub provider: Option<String>,
    pub model_ref: Option<String>,
}

/// The diagnostic record of a failure.
#[derive(Debug, Clone, PartialEq, Eq)]
pub struct FailureArtifact {
    pub kind: String,
    pub summary: String,
    pub recovery_hint: Option<String>,
    pub provider: Option<String>,
    pub model_ref: Option<String>,
    pub task_id: Option<String>,
    pub context: FailureContext,
    pub source_chain: Vec<String>,
    /// Metadata entries, in order.
    pub metadata: Vec<(String, String)>,
}

/// A runtime failure as an agent summary reports it.
#[derive(Debug, Clone, PartialEq, Eq)]
pub struct RuntimeFailureSummary {
    pub summary: String,
    pub detail_hint: Option<String>,
    pub failure_artifact: Option<FailureArtifact>,
}

/// Every id of `r` is the preview of the same id of `c`.
pub open spec fn context_cut(c: FailureContext, r: FailureContext) -> bool {
    let l = STATE_BOOTSTRAP_TEXT_PREVIEW_LIMIT;
    &&& chars_opt(r.message_id) == cut_opt(c.message_id, l)
    &&& chars_opt(r.turn_id) == cut_opt(c.turn_id, l)
    &&& chars_opt(r.run_id) == cut_opt(c.run_id, l)
    &&& chars_opt(r.work_item_id) == cut_opt(c.work_item_id, l)
    &&& chars_opt(r.tool_execution_id) == cut_opt(c.tool_execution_id, l)
    &&& chars_opt(r.task_id) == cut_opt(c.task_id, l)
    &&& chars_opt(r.correlation_id) == cut_opt(c.correlation_id, l)
    &&& chars_opt(r.causation_id) == cut_opt(c.causation_id, l)
    &&& chars_opt(r.provider) == cut_opt(c.provider, l)
    &&& chars_opt(r.model_ref) == cut_opt(c.model_ref, l)
}

/// `r` is the slimmed form of the artifact `a`: every text cut to the
/// preview budget, and only the first entries of the source chain and of
/// the metadata kept.
pub open spec fn artifact_cut(a: FailureArtifact, r: FailureArtifact) -> bool {
    let l = STATE_BOOTSTRAP_TEXT_PREVIEW_LIMIT;
    let n = STATE_BOOTSTRAP_FAILURE_ARTIFACT_ENTRY_LIMIT;
    &&& r.kind@ == cut(a.kind, l)
    &&& r.summary@ == cut(a.summary, l)
    &&& chars_opt(r.recovery_hint) == cut_opt(a.recovery_hint, l)
    &&& chars_opt(r.provider) == cut_opt(a.provider, l)
    &&& chars_opt(r.model_ref) == cut_opt(a.model_ref, l)
    &&& chars_opt(r.task_id) == cut_opt(a.task_id, l)
    &&& context_cut(a.context, r.context)
    &&& r.source_chain@.len() == if a.source_chain@.len() < n { a.source_chain@.len() } else { n as nat }
    &&& forall|i: int| 0 <= i < r.source_chain@.len() ==> (#[trigger] r.source_chain@[i])@ == cut(a.source_chain@[i], l)
    &&& r.metadata@.len() == if a.metadata@.len() < n { a.metadata@.len() } else { n as nat }
    &&& forall|i: int|
        0 <= i < r.metadata@.len() ==> (#[trigger] r.metadata@[i]).0@ == cut(a.metadata@[i].0, l)
            && r.metadata@[i].1@ == cut(a.metadata@[i].1, l)
}

fn slim_context(c: FailureContext) -> (r: FailureContext)
    ensures
        context_cut(c, r),
{
    FailureContext {
        message_id: preview_opt(c.message_id),
        turn_id: preview_opt(c.turn_id),
        run_id: preview_opt(c.run_id),
        work_item_id: preview_opt(c.work_item_id),
        tool_execution_id: preview_opt(c.tool_execution_id),
        task_id: preview_opt(c.task_id),
        correlation_id: preview_opt(c.correlation_id),
        causation_id: preview_opt(c.causation_id),
        provider: preview_opt(c.provider),
        model_ref: preview_opt(c.model_ref),
    }
}

/// Cuts every text of a failure artifact to the preview budget and keeps
/// the first sixteen entries of its source chain and of its metadata.
pub fn slim_state_failure_artifact(artifact: FailureArtifact) -> (r: FailureArtifact)
    ensures
        artifact_cut(artifact, r),
{
    let n = STATE_BOOTSTRAP_FAILURE_ARTIFACT_ENTRY_LIMIT;
    let mut chain: Vec<String> = Vec::new();
    let mut i: usize = 0;
    while i < artifact.source_chain.len() && i < n
        invariant
            i <= artifact.source_chain@.len(),
            i <= n,
            chain@.len() == i,
            forall|k: int| 0 <= k < i ==> (#[trigger] chain@[k])@ == cut(artifact.source_chain@[k], STATE_BOOTSTRAP_TEXT_PREVIEW_LIMIT),
        decreases n - i,
    {
        chain.push(preview(&artifact.source_chain[i]));
        i = i + 1;
    }
    let mut metadata: Vec<(String, String)> = Vec::new();
    let mut j: usize = 0;
    while j < artifact.metadata.len() && j < n
        invariant
            j <= artifact.metadata@.len(),
            j <= n,
            metadata@.len() == j,
            forall|k: int|
                0 <= k < j ==> (#[trigger] metadata@[k]).0@ == cut(artifact.metadata@[k].0, STATE_BOOTSTRAP_TEXT_PREVIEW_LIMIT)
                    && metadata@[k].1@ == cut(artifact.metadata@[k].1, STATE_BOOTSTRAP_TEXT_PREVIEW_LIMIT),
        decreases n - j,
    {
        let key = preview(&artifact.metadata[j].0);
        let value = preview(&artifact.metadata[j].1);
        metadata.push((key, value));
        j = j + 1;
    }
    FailureArtifact {
        kind: preview(&artifact.kind),
        summary: preview(&artifact.summary),
        recovery_hint: preview_opt(artifact.recovery_hint),
        provider: preview_opt(artifact.provider),
        model_ref: preview_opt(artifact.model_ref),
        task_id: preview_opt(artifact.task_id),
        context: slim_context(artifact.context),
        source_chain: chain,
        metadata,
    }
}

/// Cuts a runtime failure's summary and detail hint to the preview budget,
/// and slims its failure artifact.
pub fn slim_state_runtime_failure(failure: RuntimeFailureSummary) -> (r: RuntimeFailureSummary)
    ensures
        r.summary@ == cut(failure.summary, STATE_BOOTSTRAP_TEXT_PREVIEW_LIMIT),
        chars_opt(r.detail_hint) == cut_opt(failure.detail_hint, STATE_BOOTSTRAP_TEXT_PREVIEW_LIMIT),
        match failure.failure_artifact {
            Some(a) => r.failure_artifact matches Some(b) && artifact_cut(a, b),
            None => r.failure_artifact is None,
        },
{
    let failure_artifact = match failure.failure_artifact {
        Some(a) => Some(slim_state_failure_artifact(a)),
        None => None,
    };
    RuntimeFailureSummary {
        summary: preview(&failure.summary),
        detail_hint: preview_opt(failure.detail_hint),
        failure_artifact,
    }
}

// ------------------------------------------------------------ JSON values

/// Most array elements the state bootstrap shows of a JSON value.
pub const STATE_BOOTSTRAP_JSON_ARRAY_LIMIT: usize = 64;

/// Longest string a task's detail shows in the state bootstrap.
pub const STATE_BOOTSTRAP_TASK_DETAIL_STRING_LIMIT: usize = 2048;

/// `r` is `v` with every string cut to `limit` characters and every array
/// to its first `STATE_BOOTSTRAP_JSON_ARRAY_LIMIT` elements; member names,
/// numbers, booleans and nulls are kept.
pub open spec fn json_slimmed(v: JsonValue, r: JsonValue, limit: usize) -> bool
    decreases v,
{
    match v {
        JsonValue::Text(t) => r matches JsonValue::Text(u) && u@ == cut(t, limit),
        JsonValue::Array(items) => match r {
            JsonValue::Array(out) => {
                &&& out@.len() == if items@.len() < STATE_BOOTSTRAP_JSON_ARRAY_LIMIT {
                    items@.len()
                } else {
                    STATE_BOOTSTRAP_JSON_ARRAY_LIMIT as nat
                }
                &&& forall|i: int| 0 <= i < out@.len() ==> json_slimmed(#[trigger] items@[i], out@[i], limit)
            },
            _ => false,
        },
        JsonValue::Object(members) => match r {
            JsonValue::Object(out) => {
                &&& out@.len() == members@.len()
                &&& forall|i: int|
                    0 <= i < out@.len() ==> (#[trigger] out@[i]).0 == members@[i].0 && json_slimmed(
                        members@[i].1,
                        out@[i].1,
                        limit,
                    )
            },
            _ => false,
        },
        _ => r == v,
    }
}

/// Cuts the strings and arrays of a JSON value for the state bootstrap.
pub fn slim_state_json_value(value: JsonValue, string_limit: usize) -> (r: JsonValue)
    ensures
        json_slimmed(value, r, string_limit),
    decreases value,
{
    let ghost v0 = value;
    match value {
        JsonValue::Text(t) => JsonValue::Text(truncate_state_bootstrap_string(t.as_str(), string_limit)),
        JsonValue::Array(items) => {
            let ghost all = items@;
            let mut rest = items;
            let mut out: Vec<JsonValue> = Vec::new();
            let mut i: usize = 0;
            assert(all.skip(0) =~= all);
            while i < STATE_BOOTSTRAP_JSON_ARRAY_LIMIT && rest.len() > 0
                invariant
                    v0 == JsonValue::Array(items),
                    v0 == value,
                    all == items@,
                    i <= all.len(),
                    i <= STATE_BOOTSTRAP_JSON_ARRAY_LIMIT,
                    rest@ == all.skip(i as int),
                    out@.len() == i,
                    forall|k: int| 0 <= k < i ==> json_slimmed(#[trigger] all[k], out@[k], string_limit),
                decreases all.len() - i,
            {
                let h = rest.remove(0);
                assert(h == all[i as int]);
                assert(rest@ =~= all.skip(i + 1));
                proof {
                    assert(decreases_to!(v0 => v0->Array_0));
                    assert(decreases_to!(items => items@));
                    assert(decreases_to!(items@ => items@[i as int]));
                    assert(decreases_to!(v0 => h));
                }
                let s = slim_state_json_value(h, string_limit);
                out.push(s);
                i = i + 1;
            }
            JsonValue::Array(out)
        },
        JsonValue::Object(members) => {
            let ghost all = members@;
            let mut rest = members;
            let mut out: Vec<(String, JsonValue)> = Vec::new();
            let mut i: usize = 0;
            let n: usize = rest.len();
            assert(all.skip(0) =~= all);
            while rest.len() > 0
                invariant
                    v0 == JsonValue::Object(members),
                    v0 == value,
                    all == members@,
                    all.len() == n,
                    i <= all.len(),
                    rest@ == all.skip(i as int),
                    out@.len() == i,
                    forall|k: int|
                        0 <= k < i ==> (#[trigger] out@[k]).0 == all[k].0 && json_slimmed(all[k].1, out@[k].1, string_limit),
                decreases all.len() - i,
            {
                let (key, h) = rest.remove(0);
                assert((key, h) == all[i as int]);
                assert(rest@ =~= all.skip(i + 1));
                proof {
                    assert(decreases_to!(v0 => v0->Object_0));
                    assert(decreases_to!(members => members@));
                    assert(decreases_to!(members@ => members@[i as int]));
                    assert(decreases_to!(members@[i as int] => members@[i as int].1));
                    assert(decreases_to!(v0 => h));
                }
                let s = slim_state_json_value(h, string_limit);
                out.push((key, s));
                i = i + 1;
            }
            JsonValue::Object(out)
        },
        other => other,
    }
}

/// What the state bootstrap reads of a task: its free-form detail.
#[derive(Debug, PartialEq, Eq)]
pub struct TaskRecord {
    pub detail: Option<JsonValue>,
}

/// A task with its detail slimmed to the task-detail string budget.
pub fn slim_state_task_record(task: TaskRecord) -> (r: TaskRecord)
    ensures
        match task.detail {
            Some(d) => r.detail matches Some(e) && json_slimmed(d, e, STATE_BOOTSTRAP_TASK_DETAIL_STRING_LIMIT),
            None => r.detail is None,
        },
{
    match task.detail {
        Some(d) => TaskRecord { detail: Some(slim_state_json_value(d, STATE_BOOTSTRAP_TASK_DETAIL_STRING_LIMIT)) },
        None => TaskRecord { detail: None },
    }
}

/// Longest string a transcript entry's data shows in the state bootstrap.
pub const STATE_BOOTSTRAP_TRANSCRIPT_DATA_STRING_LIMIT: usize = 8192;

/// What the state bootstrap reads of a transcript entry: its data.
#[derive(Debug, PartialEq, Eq)]
pub struct TranscriptEntry {
    pub data: JsonValue,
}

/// A transcript entry with its data slimmed to the transcript string budget.
pub fn slim_state_transcript_entry(entry: TranscriptEntry) -> (r: TranscriptEntry)
    ensures
        json_slimmed(entry.data, r.data, STATE_BOOTSTRAP_TRANSCRIPT_DATA_STRING_LIMIT),
{
    TranscriptEntry { data: slim_state_json_value(entry.data, STATE_BOOTSTRAP_TRANSCRIPT_DATA_STRING_LIMIT) }
}

/// Every string in a JSON value fits `limit` characters and every array
/// its element limit.
pub open spec fn json_fits(v: JsonValue, limit: usize) -> bool
    decreases v,
{
    match v {
        JsonValue::Text(t) => t@.len() <= limit,
        JsonValue::Array(items) => items@.len() <= STATE_BOOTSTRAP_JSON_ARRAY_LIMIT && forall|i: int|
            0 <= i < items@.len() ==> json_fits(#[trigger] items@[i], limit),
        JsonValue::Object(members) => forall|i: int|
            0 <= i < members@.len() ==> json_fits(#[trigger] members@[i].1, limit),
        _ => true,
    }
}

// ------------------------------------------------------------------ laws

/// A preview never exceeds its budget, and text within the budget is kept
/// as it is.
pub proof fn previews_fit_their_budget(s: String, limit: usize)
    ensures
        cut(s, limit).len() <= limit,
        s@.len() <= limit ==> cut(s, limit) == s@,
{
    reveal_strlit("...");
}

/// What the state bootstrap shows of a failure artifact fits the preview
/// budget: every text is at most the text preview limit long, at most the
/// entry limit of source-chain and metadata entries remain, and a text
/// that already fit is shown unchanged.
pub proof fn slimmed_artifacts_fit_the_bootstrap_budget(a: FailureArtifact, r: FailureArtifact)
    requires
        artifact_cut(a, r),
    ensures
        r.kind@.len() <= STATE_BOOTSTRAP_TEXT_PREVIEW_LIMIT,
        r.summary@.len() <= STATE_BOOTSTRAP_TEXT_PREVIEW_LIMIT,
        a.kind@.len() <= STATE_BOOTSTRAP_TEXT_PREVIEW_LIMIT ==> r.kind@ == a.kind@,
        a.summary@.len() <= STATE_BOOTSTRAP_TEXT_PREVIEW_LIMIT ==> r.summary@ == a.summary@,
        r.source_chain@.len() <= STATE_BOOTSTRAP_FAILURE_ARTIFACT_ENTRY_LIMIT,
        r.metadata@.len() <= STATE_BOOTSTRAP_FAILURE_ARTIFACT_ENTRY_LIMIT,
        forall|i: int|
            0 <= i < r.source_chain@.len() ==> (#[trigger] r.source_chain@[i])@.len()
                <= STATE_BOOTSTRAP_TEXT_PREVIEW_LIMIT,
        forall|i: int|
            0 <= i < r.metadata@.len() ==> (#[trigger] r.metadata@[i]).0@.len()
                <= STATE_BOOTSTRAP_TEXT_PREVIEW_LIMIT && r.metadata@[i].1@.len()
                <= STATE_BOOTSTRAP_TEXT_PREVIEW_LIMIT,
        forall|i: int|
            0 <= i < r.source_chain@.len() ==> r.source_chain@[i]@ == cut(
                #[trigger] a.source_chain@[i],
                STATE_BOOTSTRAP_TEXT_PREVIEW_LIMIT,
            ),
{
    let l = STATE_BOOTSTRAP_TEXT_PREVIEW_LIMIT;
    previews_fit_their_budget(a.kind, l);
    previews_fit_their_budget(a.summary, l);
    assert forall|i: int| 0 <= i < r.source_chain@.len() implies (#[trigger] r.source_chain@[i])@.len() <= l by {
        previews_fit_their_budget(a.source_chain@[i], l);
    }
    assert forall|i: int| 0 <= i < r.metadata@.len() implies (#[trigger] r.metadata@[i]).0@.len() <= l
        && r.metadata@[i].1@.len() <= l by {
        previews_fit_their_budget(a.metadata@[i].0, l);
        previews_fit_their_budget(a.metadata@[i].1, l);
    }
}

/// A slimmed JSON value fits the bootstrap budget: no string is longer
/// than the limit and no array has more than the element limit.
pub proof fn slimmed_json_fits_the_bootstrap_budget(v: JsonValue, r: JsonValue, limit: usize)
    requires
        json_slimmed(v, r, limit),
    ensures
        json_fits(r, limit),
    decreases v,
{
    match v {
        JsonValue::Text(t) => {
            previews_fit_their_budget(t, limit);
        },
        JsonValue::Array(items) => {
            if let JsonValue::Array(out) = r {
                assert forall|i: int| 0 <= i < out@.len() implies json_fits(#[trigger] out@[i], limit) by {
                    assert(json_slimmed(items@[i], out@[i], limit));
                    slimmed_json_fits_the_bootstrap_budget(items@[i], out@[i], limit);
                }
            }
        },
        JsonValue::Object(members) => {
            if let JsonValue::Object(out) = r {
                assert forall|i: int| 0 <= i < out@.len() implies json_fits(#[trigger] out@[i].1, limit) by {
                    assert(json_slimmed(members@[i].1, out@[i].1, limit));
                    slimmed_json_fits_the_bootstrap_budget(members@[i].1, out@[i].1, limit);
                }
            }
        },
        _ => {},
    }
}

} // verus!
