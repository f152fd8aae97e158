//! Reading the artifacts a tool execution recorded: where the artifact's
//! path lies in the execution's output, and that the file it names stays
//! inside the runtime's data directory.
use vstd::prelude::*;
use crate::bindings::{path_components, path_starts_with};
use crate::errors::{
    bad_request, forbidden, not_found, parse_blocked_by_mutation, plain_error, BlockedByValue, HttpError,
    STATUS_BAD_REQUEST, STATUS_FORBIDDEN, STATUS_NOT_FOUND,
};
use crate::text::{chars_of, string_from_chars, trim, trim_chars};
use crate::json::{get_member, json_get, JsonValue};
use crate::numfmt::{decimal, push_decimal};
use crate::text::push_str;
use crate::validation::normalize_optional_non_empty;

verus! {

/// The result of a tool execution within its output: the `result` member,
/// else `envelope.result`, else the whole output.
pub open spec fn tool_result(output: JsonValue) -> JsonValue {
    match json_get(output, "result"@) {
        Some(r) => r,
        None => match json_get(output, "envelope"@) {
            Some(e) => match json_get(e, "result"@) {
                Some(r) => r,
                None => output,
            },
            None => output,
        },
    }
}

/// The path of artifact `index` of a tool execution:
/// `result.artifacts[index].path`, when that is a string.
pub open spec fn artifact_path_of(output: JsonValue, index: usize) -> Option<Seq<char>> {
    match json_get(tool_result(output), "artifacts"@) {
        Some(JsonValue::Array(items)) => if index < items@.len() {
            match json_get(items@[index as int], "path"@) {
                Some(JsonValue::Text(p)) => Some(p@),
                _ => None,
            }
        } else {
            None
        },
        _ => None,
    }
}

/// `format!("artifact {index} not found")`.
pub open spec fn artifact_not_found_message(index: usize) -> Seq<char> {
    "artifact "@ + decimal(index as nat) + " not found"@
}

/// `404` for an artifact index that names no artifact.
pub fn artifact_not_found(artifact_index: usize) -> (r: HttpError)
    ensures
        plain_error(r, STATUS_NOT_FOUND, artifact_not_found_message(artifact_index)),
{
    let mut m = String::from_str("artifact ");
    push_decimal(&mut m, artifact_index as u64);
    push_str(&mut m, " not found");
    not_found(m)
}

/// `404` for a tool execution that is not the agent's.
pub fn tool_execution_not_found(tool_execution_id: &str) -> (r: HttpError)
    ensures
        plain_error(r, STATUS_NOT_FOUND, "tool execution "@ + tool_execution_id@ + " not found"@),
{
    let mut m = String::from_str("tool execution ");
    push_str(&mut m, tool_execution_id);
    push_str(&mut m, " not found");
    not_found(m)
}

fn tool_result_of(output: &JsonValue) -> (r: &JsonValue)
    ensures
        *r == tool_result(*output),
{
    match get_member(output, "result") {
        Some(r) => r,
        None => match get_member(output, "envelope") {
            Some(e) => match get_member(e, "result") {
                Some(r) => r,
                None => output,
            },
            None => output,
        },
    }
}

/// The recorded path of artifact `artifact_index` of a tool execution, from
/// the execution's output; `404` when there is none.
pub fn tool_artifact_path(output: &JsonValue, artifact_index: usize) -> (r: Result<String, HttpError>)
    ensures
        match artifact_path_of(*output, artifact_index) {
            Some(p) => r matches Ok(s) && s@ == p,
            None => r matches Err(e) && plain_error(e, STATUS_NOT_FOUND, artifact_not_found_message(artifact_index)),
        },
{
    let result = tool_result_of(output);
    if let Some(JsonValue::Array(items)) = get_member(result, "artifacts") {
        if artifact_index < items.len() {
            if let Some(JsonValue::Text(p)) = get_member(&items[artifact_index], "path") {
                return Ok(p.clone());
            }
        }
    }
    Err(artifact_not_found(artifact_index))
}

/// Whether the artifact path (resolved by the file system) lies within the
/// runtime's data directory, component by component.
pub open spec fn within_data_dir(data_dir: Seq<char>, artifact_path: Seq<char>) -> bool {
    path_components(data_dir).is_prefix_of(path_components(artifact_path))
}

/// Refuses with `403` an artifact whose resolved path is outside the
/// runtime's data directory (both paths as the file system resolved them).
pub fn check_artifact_within_data_dir(data_dir: &str, artifact_path: &str) -> (r: Result<(), HttpError>)
    ensures
        r is Ok <==> within_data_dir(data_dir@, artifact_path@),
        r matches Err(e) ==> plain_error(e, STATUS_FORBIDDEN, "artifact path escapes runtime data directory"@),
{
    if path_starts_with(artifact_path, data_dir) {
        Ok(())
    } else {
        Err(forbidden(String::from_str("artifact path escapes runtime data directory")))
    }
}

// ------------------------------------------------------------ work items

/// A work item objective: trimmed, and not blank.
pub fn work_item_objective(objective: &str) -> (r: Result<String, HttpError>)
    ensures
        trim(objective@).len() == 0 ==> (r matches Err(e) && plain_error(
            e,
            STATUS_BAD_REQUEST,
            "objective must not be empty"@,
        )),
        trim(objective@).len() != 0 ==> (r matches Ok(o) && o@ == trim(objective@)),
{
    let v = chars_of(objective);
    let t = trim_chars(&v);
    if t.len() == 0 {
        Err(bad_request(String::from_str("objective must not be empty")))
    } else {
        Ok(string_from_chars(&t))
    }
}

/// The checked fields of a work item update: the trimmed objective, and
/// the blocker (`Some(None)` clears it).
#[derive(Debug, Clone, PartialEq, Eq)]
pub struct WorkItemUpdate {
    pub objective: Option<String>,
    pub blocked_by: Option<Option<String>>,
}

/// The blocker a `blocked_by` value sets: `Some(t)` sets the trimmed text,
/// `None` clears it; `None` for a value that is refused.
pub open spec fn blocker_of(v: BlockedByValue) -> Option<Option<Seq<char>>> {
    match v {
        BlockedByValue::Null => Some(None),
        BlockedByValue::Text(s) => if trim(s@).len() == 0 {
            Some(None)
        } else {
            Some(Some(trim(s@)))
        },
        BlockedByValue::Other => None,
    }
}

/// The first error of a work item update, in the order the fields are
/// checked: the objective, the blocker, then the recheck delay (positive,
/// and only with a blocker being set), then that something changes.
pub open spec fn work_item_update_error(
    objective: Option<String>,
    blocked_by: Option<BlockedByValue>,
    recheck_after: Option<u64>,
    plan_or_todo_given: bool,
) -> Option<Seq<char>> {
    if objective matches Some(o) && trim(o@).len() == 0 {
        Some("objective must not be empty"@)
    } else if blocked_by matches Some(b) && blocker_of(b) is None {
        Some("blocked_by must be a string or null"@)
    } else if recheck_after == Some(0u64) {
        Some("recheck_after must be greater than 0"@)
    } else if recheck_after is Some && !(blocked_by matches Some(b) && blocker_of(b) matches Some(Some(_))) {
        Some("recheck_after requires a non-empty blocked_by value"@)
    } else if objective is None && !plan_or_todo_given && blocked_by is None {
        Some("request must include at least one mutation field"@)
    } else {
        None
    }
}

/// Checks a work item update: `plan_or_todo_given` says whether the
/// request sets the plan status or the todo list. Every refusal is `400`.
pub fn validate_work_item_update(
    objective: Option<String>,
    blocked_by: Option<BlockedByValue>,
    recheck_after: Option<u64>,
    plan_or_todo_given: bool,
) -> (r: Result<WorkItemUpdate, HttpError>)
    ensures
        match work_item_update_error(objective, blocked_by, recheck_after, plan_or_todo_given) {
            Some(m) => r matches Err(e) && plain_error(e, STATUS_BAD_REQUEST, m),
            None => r matches Ok(u) && {
                &&& match objective {
                    Some(o) => u.objective matches Some(t) && t@ == trim(o@),
                    None => u.objective is None,
                }
                &&& match blocked_by {
                    Some(b) => match blocker_of(b) {
                        Some(Some(t)) => u.blocked_by matches Some(Some(x)) && x@ == t,
                        _ => u.blocked_by == Some(None::<String>),
                    },
                    None => u.blocked_by is None,
                }
            },
        },
{
    let objective_given = objective.is_some();
    let objective = match objective {
        Some(o) => match work_item_objective(o.as_str()) {
            Ok(t) => Some(t),
            Err(e) => return Err(e),
        },
        None => None,
    };
    let blocker_given = blocked_by.is_some();
    let blocked_by = match blocked_by {
        Some(b) => match parse_blocked_by_mutation(b) {
            Ok(x) => Some(x),
            Err(e) => return Err(e),
        },
        None => None,
    };
    if recheck_after == Some(0u64) {
        return Err(bad_request(String::from_str("recheck_after must be greater than 0")));
    }
    let sets_blocker = match &blocked_by {
        Some(Some(_)) => true,
        _ => false,
    };
    if recheck_after.is_some() && !sets_blocker {
        return Err(bad_request(String::from_str("recheck_after requires a non-empty blocked_by value")));
    }
    if !objective_given && !plan_or_todo_given && !blocker_given {
        return Err(bad_request(String::from_str("request must include at least one mutation field")));
    }
    Ok(WorkItemUpdate { objective, blocked_by })
}

/// The reason of a pick, trimmed and `None` when blank; clearing the
/// blocker needs a reason.
pub fn validate_pick_reason(reason: Option<String>, clear_blocker: bool) -> (r: Result<Option<String>, HttpError>)
    ensures
        ({
            let normalized = match reason {
                Some(s) => if trim(s@).len() == 0 {
                    None
                } else {
                    Some(trim(s@))
                },
                None => None,
            };
            if clear_blocker && normalized is None {
                r matches Err(e) && plain_error(
                    e,
                    STATUS_BAD_REQUEST,
                    "clear_blocker requires a non-empty reason explaining why the blocker is resolved"@,
                )
            } else {
                r matches Ok(o) && crate::errors::opt_view(o) == normalized
            }
        }),
{
    let reason = normalize_optional_non_empty(reason);
    if clear_blocker && reason.is_none() {
        return Err(
            bad_request(
                String::from_str("clear_blocker requires a non-empty reason explaining why the blocker is resolved"),
            ),
        );
    }
    Ok(reason)
}

// ------------------------------------------------------------ task stops

/// Where a stopped task ended up.
#[derive(Debug, Clone, Copy, PartialEq, Eq, Structural)]
pub enum StoppedTaskStatus {
    Cancelling,
    Cancelled,
    Other,
}

/// The summary of a stop request.
pub open spec fn stop_summary(task_id: Seq<char>, status: StoppedTaskStatus) -> Seq<char> {
    match status {
        StoppedTaskStatus::Cancelling => "stop requested for task "@ + task_id,
        StoppedTaskStatus::Cancelled => "cancelled task "@ + task_id,
        StoppedTaskStatus::Other => "updated task "@ + task_id,
    }
}

/// The summary text of a stop request for task `task_id`.
pub fn task_stop_summary(task_id: &str, status: StoppedTaskStatus) -> (r: String)
    ensures
        r@ == stop_summary(task_id@, status),
{
    let mut s = match status {
        StoppedTaskStatus::Cancelling => String::from_str("stop requested for task "),
        StoppedTaskStatus::Cancelled => String::from_str("cancelled task "),
        StoppedTaskStatus::Other => String::from_str("updated task "),
    };
    push_str(&mut s, task_id);
    s
}

/// Whether a task's detail says that a forced stop was requested: its
/// `force_stop_requested` member is `true`.
pub fn force_stop_requested(detail: Option<&JsonValue>) -> (b: bool)
    ensures
        b == (detail matches Some(d) && json_get(*d, "force_stop_requested"@) == Some(JsonValue::Bool(true))),
{
    match detail {
        Some(d) => match get_member(d, "force_stop_requested") {
            Some(JsonValue::Bool(b)) => *b,
            _ => false,
        },
        None => false,
    }
}

} // verus!
