use holon_http::json::JsonValue;
use holon_http::tasks::{
    check_artifact_within_data_dir, force_stop_requested, task_stop_summary, tool_artifact_path,
    tool_execution_not_found, validate_pick_reason, validate_work_item_update, work_item_objective,
    StoppedTaskStatus, WorkItemUpdate,
};
use holon_http::errors::BlockedByValue;

fn obj(members: Vec<(&str, JsonValue)>) -> JsonValue {
    JsonValue::Object(members.into_iter().map(|(k, v)| (k.to_string(), v)).collect())
}

fn text(s: &str) -> JsonValue {
    JsonValue::Text(s.to_string())
}

fn artifacts(paths: &[&str]) -> JsonValue {
    JsonValue::Array(paths.iter().map(|p| obj(vec![("path", text(p))])).collect())
}

#[test]
fn artifact_paths_come_from_the_result() {
    let output = obj(vec![("result", obj(vec![("artifacts", artifacts(&["a.txt", "b.txt"]))]))]);
    assert_eq!(tool_artifact_path(&output, 1).unwrap(), "b.txt");
    let e = tool_artifact_path(&output, 2).unwrap_err();
    assert_eq!(e.status, 404);
    assert_eq!(e.envelope.error, "artifact 2 not found");
}

#[test]
fn artifact_paths_fall_back_to_the_envelope_and_the_output() {
    let enveloped = obj(vec![(
        "envelope",
        obj(vec![("result", obj(vec![("artifacts", artifacts(&["e.log"]))]))]),
    )]);
    assert_eq!(tool_artifact_path(&enveloped, 0).unwrap(), "e.log");
    let bare = obj(vec![("artifacts", artifacts(&["bare.log"]))]);
    assert_eq!(tool_artifact_path(&bare, 0).unwrap(), "bare.log");
    let not_text = obj(vec![(
        "artifacts",
        JsonValue::Array(vec![obj(vec![("path", JsonValue::Number("3".to_string()))])]),
    )]);
    assert_eq!(tool_artifact_path(&not_text, 0).unwrap_err().envelope.error, "artifact 0 not found");
    assert_eq!(tool_artifact_path(&JsonValue::Null, 0).unwrap_err().status, 404);
}

#[test]
fn artifacts_must_stay_inside_the_data_dir() {
    assert!(check_artifact_within_data_dir("/srv/data", "/srv/data/artifacts/out.txt").is_ok());
    assert!(check_artifact_within_data_dir("/srv/data/", "/srv/data").is_ok());
    let e = check_artifact_within_data_dir("/srv/data", "/srv/data2/out.txt").unwrap_err();
    assert_eq!(e.status, 403);
    assert_eq!(e.envelope.error, "artifact path escapes runtime data directory");
    assert!(check_artifact_within_data_dir("/srv/data", "/etc/passwd").is_err());
}

#[test]
fn unknown_tool_executions_are_not_found() {
    let e = tool_execution_not_found("exec-1");
    assert_eq!(e.status, 404);
    assert_eq!(e.envelope.error, "tool execution exec-1 not found");
}

#[test]
fn work_item_objectives_are_trimmed_and_required() {

    assert_eq!(work_item_objective("  ship it \n").unwrap(), "ship it");
    let e = work_item_objective("   ").unwrap_err();
    assert_eq!(e.status, 400);
    assert_eq!(e.envelope.error, "objective must not be empty");
}

fn update_error(
    objective: Option<&str>,
    blocked_by: Option<BlockedByValue>,
    recheck_after: Option<u64>,
    plan_or_todo: bool,
) -> String {
    validate_work_item_update(objective.map(String::from), blocked_by, recheck_after, plan_or_todo)
        .unwrap_err()
        .envelope
        .error
}

#[test]
fn work_item_updates_are_checked_in_order() {
    assert_eq!(update_error(Some(" "), None, None, true), "objective must not be empty");
    assert_eq!(
        update_error(None, Some(BlockedByValue::Other), None, false),
        "blocked_by must be a string or null"
    );
    assert_eq!(
        update_error(None, Some(BlockedByValue::Text("ci".into())), Some(0), false),
        "recheck_after must be greater than 0"
    );
    assert_eq!(
        update_error(None, Some(BlockedByValue::Null), Some(60), false),
        "recheck_after requires a non-empty blocked_by value"
    );
    assert_eq!(
        update_error(None, None, Some(60), true),
        "recheck_after requires a non-empty blocked_by value"
    );
    assert_eq!(update_error(None, None, None, false), "request must include at least one mutation field");
}

#[test]
fn accepted_work_item_updates_carry_the_cleaned_fields() {
    let u = validate_work_item_update(
        Some("  new goal ".to_string()),
        Some(BlockedByValue::Text(" waiting on CI ".to_string())),
        Some(30),
        false,
    )
    .unwrap();
    assert_eq!(
        u,
        WorkItemUpdate {
            objective: Some("new goal".to_string()),
            blocked_by: Some(Some("waiting on CI".to_string())),
        }
    );
    let u = validate_work_item_update(None, Some(BlockedByValue::Text("  ".into())), None, false).unwrap();
    assert_eq!(u, WorkItemUpdate { objective: None, blocked_by: Some(None) });
    let u = validate_work_item_update(None, None, None, true).unwrap();
    assert_eq!(u, WorkItemUpdate { objective: None, blocked_by: None });
}

#[test]
fn clearing_a_blocker_needs_a_reason() {
    assert_eq!(validate_pick_reason(Some(" fixed ".into()), true).unwrap(), Some("fixed".to_string()));
    assert_eq!(validate_pick_reason(Some("  ".into()), false).unwrap(), None);
    let e = validate_pick_reason(None, true).unwrap_err();
    assert_eq!(e.status, 400);
    assert_eq!(
        e.envelope.error,
        "clear_blocker requires a non-empty reason explaining why the blocker is resolved"
    );
}

#[test]
fn stop_summaries_and_forced_stops() {
    assert_eq!(task_stop_summary("t-1", StoppedTaskStatus::Cancelling), "stop requested for task t-1");
    assert_eq!(task_stop_summary("t-1", StoppedTaskStatus::Cancelled), "cancelled task t-1");
    assert_eq!(task_stop_summary("t-1", StoppedTaskStatus::Other), "updated task t-1");
    let detail = obj(vec![("force_stop_requested", JsonValue::Bool(true))]);
    assert!(force_stop_requested(Some(&detail)));
    let not_bool = obj(vec![("force_stop_requested", text("yes"))]);
    assert!(!force_stop_requested(Some(&not_bool)));
    assert!(!force_stop_requested(None));
}
