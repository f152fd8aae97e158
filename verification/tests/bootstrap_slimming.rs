use holon_http::json::JsonValue;
use holon_http::bootstrap::{
    slim_state_failure_artifact, slim_state_json_value, slim_state_runtime_failure,
    slim_state_task_record, slim_state_transcript_entry, slim_state_turn_terminal_record,
    slim_state_work_item_dto, FailureArtifact, FailureContext, RuntimeFailureSummary,
    TaskRecord, TranscriptEntry, TurnCheckpoint, TurnTerminalRecord, WorkItemText,
    STATE_BOOTSTRAP_JSON_ARRAY_LIMIT, STATE_BOOTSTRAP_TASK_DETAIL_STRING_LIMIT,
    STATE_BOOTSTRAP_TRANSCRIPT_DATA_STRING_LIMIT,
};
use holon_http::state::{
    STATE_BOOTSTRAP_FAILURE_ARTIFACT_ENTRY_LIMIT, STATE_BOOTSTRAP_LAST_TURN_TEXT_LIMIT,
    STATE_BOOTSTRAP_TEXT_PREVIEW_LIMIT,
};

#[test]
fn state_bootstrap_slims_work_item_records() {
    let item = WorkItemText {
        objective: "x".repeat(STATE_BOOTSTRAP_TEXT_PREVIEW_LIMIT + 64),
        blocked_by: Some("b".repeat(STATE_BOOTSTRAP_TEXT_PREVIEW_LIMIT + 64)),
        result_summary: Some("r".repeat(STATE_BOOTSTRAP_TEXT_PREVIEW_LIMIT + 64)),
    };
    let slimmed = slim_state_work_item_dto(item);

    assert!(slimmed.objective.chars().count() <= STATE_BOOTSTRAP_TEXT_PREVIEW_LIMIT);
    assert!(
        slimmed
            .blocked_by
            .as_deref()
            .expect("blocker")
            .chars()
            .count()
            <= STATE_BOOTSTRAP_TEXT_PREVIEW_LIMIT
    );
    assert!(
        slimmed
            .result_summary
            .as_deref()
            .expect("result")
            .chars()
            .count()
            <= STATE_BOOTSTRAP_TEXT_PREVIEW_LIMIT
    );
}

#[test]
fn state_bootstrap_preserves_and_slims_last_runtime_failure() {
    let long_text = "x".repeat(STATE_BOOTSTRAP_TEXT_PREVIEW_LIMIT + 64);
    let failure = RuntimeFailureSummary {
        summary: "s".repeat(STATE_BOOTSTRAP_TEXT_PREVIEW_LIMIT + 64),
        detail_hint: Some("d".repeat(STATE_BOOTSTRAP_TEXT_PREVIEW_LIMIT + 64)),
        failure_artifact: Some(FailureArtifact {
            kind: long_text.clone(),
            summary: long_text.clone(),
            recovery_hint: Some(long_text.clone()),
            provider: Some(long_text.clone()),
            model_ref: Some(long_text.clone()),
            task_id: Some(long_text.clone()),
            source_chain: (0..STATE_BOOTSTRAP_FAILURE_ARTIFACT_ENTRY_LIMIT + 4)
                .map(|_| long_text.clone())
                .collect(),
            context: FailureContext {
                message_id: Some(long_text.clone()),
                turn_id: Some(long_text.clone()),
                run_id: Some(long_text.clone()),
                work_item_id: Some(long_text.clone()),
                tool_execution_id: Some(long_text.clone()),
                task_id: Some(long_text.clone()),
                correlation_id: Some(long_text.clone()),
                causation_id: Some(long_text.clone()),
                provider: Some(long_text.clone()),
                model_ref: Some(long_text.clone()),
            },
            metadata: (0..STATE_BOOTSTRAP_FAILURE_ARTIFACT_ENTRY_LIMIT + 4)
                .map(|index| (format!("{index}-{long_text}"), long_text.clone()))
                .collect(),
        }),
    };

    let slimmed = slim_state_runtime_failure(failure);

    assert!(slimmed.summary.chars().count() <= STATE_BOOTSTRAP_TEXT_PREVIEW_LIMIT);
    assert!(
        slimmed
            .detail_hint
            .as_deref()
            .expect("detail hint")
            .chars()
            .count()
            <= STATE_BOOTSTRAP_TEXT_PREVIEW_LIMIT
    );
    let artifact = slimmed.failure_artifact.expect("failure artifact");
    for text in [
        artifact.kind.as_str(),
        artifact.summary.as_str(),
        artifact.recovery_hint.as_deref().expect("recovery hint"),
        artifact.provider.as_deref().expect("provider"),
        artifact.model_ref.as_deref().expect("model ref"),
        artifact.task_id.as_deref().expect("task id"),
    ] {
        assert!(text.chars().count() <= STATE_BOOTSTRAP_TEXT_PREVIEW_LIMIT);
    }
    for text in [
        artifact.context.message_id.as_deref().expect("message id"),
        artifact.context.turn_id.as_deref().expect("turn id"),
        artifact.context.run_id.as_deref().expect("run id"),
        artifact.context.work_item_id.as_deref().expect("work item id"),
        artifact
            .context
            .tool_execution_id
            .as_deref()
            .expect("tool execution id"),
        artifact.context.task_id.as_deref().expect("context task id"),
        artifact.context.correlation_id.as_deref().expect("correlation id"),
        artifact.context.causation_id.as_deref().expect("causation id"),
        artifact.context.provider.as_deref().expect("context provider"),
        artifact.context.model_ref.as_deref().expect("context model ref"),
    ] {
        assert!(text.chars().count() <= STATE_BOOTSTRAP_TEXT_PREVIEW_LIMIT);
    }
    assert_eq!(
        artifact.source_chain.len(),
        STATE_BOOTSTRAP_FAILURE_ARTIFACT_ENTRY_LIMIT
    );
    assert!(artifact
        .source_chain
        .iter()
        .all(|text| text.chars().count() <= STATE_BOOTSTRAP_TEXT_PREVIEW_LIMIT));
    assert_eq!(
        artifact.metadata.len(),
        STATE_BOOTSTRAP_FAILURE_ARTIFACT_ENTRY_LIMIT
    );
    assert!(artifact.metadata.iter().all(|(key, value)| {
        key.chars().count() <= STATE_BOOTSTRAP_TEXT_PREVIEW_LIMIT
            && value.chars().count() <= STATE_BOOTSTRAP_TEXT_PREVIEW_LIMIT
    }));
}

#[test]
fn short_failure_text_is_kept_as_it_is() {
    let artifact = FailureArtifact {
        kind: "provider_error".to_string(),
        summary: "upstream returned 500".to_string(),
        recovery_hint: None,
        provider: Some("openai".to_string()),
        model_ref: None,
        task_id: None,
        context: FailureContext {
            message_id: None,
            turn_id: Some("turn-1".to_string()),
            run_id: None,
            work_item_id: None,
            tool_execution_id: None,
            task_id: None,
            correlation_id: None,
            causation_id: None,
            provider: None,
            model_ref: None,
        },
        source_chain: vec!["a".to_string(), "b".to_string()],
        metadata: vec![("k".to_string(), "v".to_string())],
    };
    assert_eq!(slim_state_failure_artifact(artifact.clone()), artifact);
}

#[test]
fn long_preview_ends_in_an_ellipsis_within_budget() {
    let item = slim_state_work_item_dto(WorkItemText {
        objective: "o".repeat(600),
        blocked_by: None,
        result_summary: Some("done".to_string()),
    });
    assert_eq!(item.objective, format!("{}...", "o".repeat(509)));
    assert_eq!(item.blocked_by, None);
    assert_eq!(item.result_summary.as_deref(), Some("done"));
}

#[test]
fn turn_records_use_the_last_turn_budget_for_messages() {
    let record = slim_state_turn_terminal_record(TurnTerminalRecord {
        reason: Some("r".repeat(1000)),
        last_assistant_message: Some("m".repeat(1000)),
        checkpoint: Some(TurnCheckpoint { text: "c".repeat(STATE_BOOTSTRAP_LAST_TURN_TEXT_LIMIT + 1) }),
    });
    assert_eq!(record.reason.as_deref().map(|s| s.chars().count()), Some(512));
    assert_eq!(record.last_assistant_message.as_deref(), Some("m".repeat(1000).as_str()));
    let text = record.checkpoint.expect("checkpoint").text;
    assert_eq!(text.chars().count(), STATE_BOOTSTRAP_LAST_TURN_TEXT_LIMIT);
    assert!(text.ends_with("..."));
}

fn text(s: &str) -> JsonValue {
    JsonValue::Text(s.to_string())
}

fn member<'a>(value: &'a JsonValue, key: &str) -> &'a JsonValue {
    match value {
        JsonValue::Object(members) => &members.iter().find(|(k, _)| k == key).expect("member").1,
        other => panic!("not an object: {other:?}"),
    }
}

#[test]
fn state_bootstrap_slims_large_task_detail_and_transcript_data() {
    let task = TaskRecord {
        detail: Some(JsonValue::Object(vec![
            ("cmd".to_string(), text("printf test")),
            ("output_path".to_string(), text("/tmp/output.log")),
            (
                "output_summary".to_string(),
                JsonValue::Text("x".repeat(STATE_BOOTSTRAP_TASK_DETAIL_STRING_LIMIT + 64)),
            ),
            (
                "lines".to_string(),
                JsonValue::Array(
                    (0..(STATE_BOOTSTRAP_JSON_ARRAY_LIMIT + 10))
                        .map(|n| JsonValue::Number(n.to_string()))
                        .collect(),
                ),
            ),
        ])),
    };
    let slimmed = slim_state_task_record(task);
    let detail = slimmed.detail.expect("detail");
    assert_eq!(member(&detail, "cmd"), &text("printf test"));
    assert_eq!(member(&detail, "output_path"), &text("/tmp/output.log"));
    match member(&detail, "output_summary") {
        JsonValue::Text(summary) => {
            assert!(summary.chars().count() <= STATE_BOOTSTRAP_TASK_DETAIL_STRING_LIMIT)
        }
        other => panic!("summary: {other:?}"),
    }
    match member(&detail, "lines") {
        JsonValue::Array(lines) => assert_eq!(lines.len(), STATE_BOOTSTRAP_JSON_ARRAY_LIMIT),
        other => panic!("lines: {other:?}"),
    }

    let entry = TranscriptEntry {
        data: JsonValue::Object(vec![(
            "content".to_string(),
            JsonValue::Text("y".repeat(STATE_BOOTSTRAP_TRANSCRIPT_DATA_STRING_LIMIT + 64)),
        )]),
    };
    let slimmed_entry = slim_state_transcript_entry(entry);
    match member(&slimmed_entry.data, "content") {
        JsonValue::Text(content) => {
            assert!(content.chars().count() <= STATE_BOOTSTRAP_TRANSCRIPT_DATA_STRING_LIMIT)
        }
        other => panic!("content: {other:?}"),
    }
}

#[test]
fn json_slimming_reaches_nested_values_and_keeps_scalars() {
    let value = JsonValue::Array(vec![
        JsonValue::Null,
        JsonValue::Bool(true),
        JsonValue::Number("1.5".to_string()),
        JsonValue::Object(vec![("deep".to_string(), JsonValue::Array(vec![text("abcdefgh")]))]),
    ]);
    let slimmed = slim_state_json_value(value, 6);
    assert_eq!(
        slimmed,
        JsonValue::Array(vec![
            JsonValue::Null,
            JsonValue::Bool(true),
            JsonValue::Number("1.5".to_string()),
            JsonValue::Object(vec![("deep".to_string(), JsonValue::Array(vec![text("abc...")]))]),
        ])
    );
    assert_eq!(slim_state_task_record(TaskRecord { detail: None }), TaskRecord { detail: None });
}
