use holon_http::conversation::{
    batch_begin_message, checkpoint_message, ChangeBatchHeader,
    batch_send_start, batch_send_step, BatchSendAction, FrameSendResult,
    conversation_stream_on_read, conversation_stream_on_wake, stream_start_cursor, ChangeBatchRead,
    ConversationStreamAction, ConversationStreamState, ConversationStreamWake, LastEventIdHeader,
    agent_not_found, change_batch_frames, conversation_batch_id, ConversationChangeKind, StreamFrame, conversation_error, conversation_stream_error, payload_too_large,
    reset_message_for_error, stream_reset_reason, timeout_error, ConversationFailure,
    ConversationReadError, ConversationResetReason, ConversationStreamMessageKind,
    ConversationStreamResetReason, CursorDecodeError,
};
use holon_http::errors::ExtensionValue;
use holon_http::projection_gate::leader_cancelled;

fn read(error: ConversationReadError) -> ConversationFailure {
    ConversationFailure::Read { error, message: "refused".to_string() }
}

fn ext(pairs: &[(&str, ExtensionValue)]) -> Vec<(String, ExtensionValue)> {
    pairs.iter().map(|(k, v)| (k.to_string(), v.clone())).collect()
}

#[test]
fn malformed_and_foreign_cursors_are_bad_requests() {
    let e = conversation_error(read(ConversationReadError::Cursor(CursorDecodeError::Malformed)));
    assert_eq!(e.status, 400);
    assert_eq!(e.envelope.code.as_deref(), Some("conversation_cursor_malformed"));
    let e = conversation_error(read(ConversationReadError::Cursor(CursorDecodeError::KindMismatch)));
    assert_eq!(e.status, 400);
    assert_eq!(e.envelope.code.as_deref(), Some("conversation_cursor_kind_mismatch"));
    let e = conversation_error(read(ConversationReadError::Cursor(CursorDecodeError::BindingMismatch)));
    assert_eq!(e.envelope.code.as_deref(), Some("conversation_cursor_scope_mismatch"));
    assert_eq!(e.envelope.error, "refused");
    assert!(e.envelope.extensions.is_empty());
}

#[test]
fn cursor_outside_coverage_is_a_conflict_with_a_hint() {
    let e = conversation_error(read(ConversationReadError::CursorOutsideCoverage));
    assert_eq!(e.status, 409);
    assert_eq!(e.envelope.code.as_deref(), Some("conversation_cursor_outside_coverage"));
    assert_eq!(e.envelope.hint.as_deref(), Some("restart from a fresh conversation snapshot"));
}

#[test]
fn invalid_limit_carries_its_bounds() {
    let e = conversation_error(read(ConversationReadError::InvalidLimit {
        resource: "turns".to_string(),
        minimum: 1,
        maximum: 100,
        actual: 0,
    }));
    assert_eq!(e.status, 400);
    assert_eq!(e.envelope.code.as_deref(), Some("conversation_invalid_limit"));
    assert_eq!(
        e.envelope.extensions,
        ext(&[
            ("resource", ExtensionValue::Text("turns".to_string())),
            ("minimum", ExtensionValue::Unsigned(1)),
            ("maximum", ExtensionValue::Unsigned(100)),
            ("actual", ExtensionValue::Unsigned(0)),
        ])
    );
}

#[test]
fn count_limit_is_payload_too_large() {
    let e = conversation_error(read(ConversationReadError::CountLimitExceeded {
        resource: "events".to_string(),
        limit: 500,
    }));
    assert_eq!(e.status, 413);
    assert_eq!(e.envelope.code.as_deref(), Some("conversation_count_limit_exceeded"));
    assert_eq!(
        e.envelope.extensions,
        ext(&[
            ("resource", ExtensionValue::Text("events".to_string())),
            ("limit", ExtensionValue::Unsigned(500)),
        ])
    );
}

#[test]
fn reset_required_names_the_reason_and_window() {
    let e = conversation_error(read(ConversationReadError::ResetRequired {
        reason: ConversationResetReason::RetentionExpired,
        requested_seq: 3,
        oldest_retained_seq: 10,
        event_head_seq: 42,
    }));
    assert_eq!(e.status, 409);
    assert_eq!(e.envelope.code.as_deref(), Some("conversation_reset_required"));
    assert_eq!(
        e.envelope.extensions,
        ext(&[
            ("reason", ExtensionValue::Text("retention_expired".to_string())),
            ("requested_seq", ExtensionValue::Unsigned(3)),
            ("oldest_retained_seq", ExtensionValue::Unsigned(10)),
            ("event_head_seq", ExtensionValue::Unsigned(42)),
        ])
    );
}

#[test]
fn other_failures_are_internal_errors() {
    let e = conversation_error(ConversationFailure::Other("disk on fire".to_string()));
    assert_eq!(e.status, 500);
    assert_eq!(e.envelope.error, "disk on fire");
    assert_eq!(e.envelope.code, None);
}

#[test]
fn stale_stream_cursor_requires_a_reset() {
    let e = conversation_stream_error(read(ConversationReadError::Cursor(
        CursorDecodeError::QueryVersionMismatch,
    )));
    assert_eq!(e.status, 409);
    assert_eq!(e.envelope.code.as_deref(), Some("conversation_reset_required"));
    assert_eq!(
        e.envelope.extensions,
        ext(&[("reason", ExtensionValue::Text("query_version_mismatch".to_string()))])
    );
    let e = conversation_stream_error(read(ConversationReadError::Cursor(CursorDecodeError::Tampered)));
    assert_eq!(e.status, 400);
    assert_eq!(e.envelope.code.as_deref(), Some("conversation_cursor_tampered"));
}

#[test]
fn reset_messages_follow_the_failure() {
    let m = reset_message_for_error(&read(ConversationReadError::ResetRequired {
        reason: ConversationResetReason::CursorAhead,
        requested_seq: 50,
        oldest_retained_seq: 1,
        event_head_seq: 40,
    }));
    assert_eq!(m.reason, ConversationStreamResetReason::CursorAhead);
    assert_eq!(m.oldest_retained_seq, Some(1));
    assert_eq!(m.event_head_seq, Some(40));
    assert_eq!(m.hint, "bootstrap a fresh conversation snapshot");
    let m = reset_message_for_error(&read(ConversationReadError::Cursor(
        CursorDecodeError::EventLogEpochMismatch,
    )));
    assert_eq!(m.reason, ConversationStreamResetReason::EventLogEpochMismatch);
    assert_eq!(m.oldest_retained_seq, None);
    let m = reset_message_for_error(&read(ConversationReadError::Cursor(CursorDecodeError::Malformed)));
    assert_eq!(m.reason, ConversationStreamResetReason::CursorRejected);
    let m = reset_message_for_error(&ConversationFailure::Other("x".to_string()));
    assert_eq!(m.reason, ConversationStreamResetReason::StreamRecoveryFailed);
    assert_eq!(m.event_head_seq, None);
}

#[test]
fn reason_and_event_names_are_snake_case() {
    assert_eq!(
        stream_reset_reason(ConversationResetReason::ReplayLimitExceeded).as_str(),
        "replay_limit_exceeded"
    );
    assert_eq!(ConversationStreamResetReason::SlowConsumer.as_str(), "slow_consumer");
    assert_eq!(ConversationStreamMessageKind::BatchBegin.event_name(), "batch_begin");
    assert_eq!(ConversationStreamMessageKind::DetailInvalidated.event_name(), "detail_invalidated");
    assert_eq!(ConversationStreamMessageKind::ResetRequired.event_name(), "reset_required");
}

#[test]
fn size_and_time_budgets_have_typed_errors() {
    let e = payload_too_large("conversation_snapshot_too_large", "snapshot too large", 2048, 1);
    assert_eq!(e.status, 413);
    assert_eq!(e.envelope.code.as_deref(), Some("conversation_snapshot_too_large"));
    assert_eq!(e.envelope.error, "snapshot too large");
    assert_eq!(
        e.envelope.extensions,
        ext(&[
            ("serialized_bytes", ExtensionValue::Unsigned(2048)),
            ("max_serialized_bytes", ExtensionValue::Unsigned(1)),
        ])
    );
    let e = timeout_error("summary", 10);
    assert_eq!(e.status, 503);
    assert_eq!(e.envelope.code.as_deref(), Some("conversation_snapshot_timeout"));
    assert_eq!(e.envelope.error, "conversation summary snapshot exceeded the 10 second budget");
    assert_eq!(e.envelope.extensions, ext(&[("retryable", ExtensionValue::Flag(true))]));
}

#[test]
fn unknown_agents_and_cancelled_leaders() {
    let e = agent_not_found();
    assert_eq!(e.status, 404);
    assert_eq!(e.envelope.error, "no accessible Agent for this request");
    assert_eq!(e.envelope.code.as_deref(), Some("agent_not_found"));
    let e = leader_cancelled();
    assert_eq!(e.status, 503);
    assert_eq!(e.envelope.code.as_deref(), Some("projection_leader_cancelled"));
    assert_eq!(e.envelope.extensions, ext(&[("retryable", ExtensionValue::Flag(true))]));
}

#[test]
fn change_batches_frame_the_checkpoint_last() {
    let frames = change_batch_frames(
        &vec![ConversationChangeKind::OperatorRemove, ConversationChangeKind::DetailInvalidated],
        "cursor-9",
    );
    let names: Vec<&str> = frames.iter().map(|f| f.kind.event_name()).collect();
    assert_eq!(names, vec!["batch_begin", "operator_remove", "detail_invalidated", "checkpoint"]);
    let ids: Vec<&StreamFrame> = frames.iter().filter(|f| f.id.is_some()).collect();
    assert_eq!(ids.len(), 1);
    assert_eq!(ids[0].id.as_deref(), Some("cursor-9"));
    assert_eq!(frames[1].change, Some(0));
    assert_eq!(frames[2].change, Some(1));
    assert_eq!(conversation_batch_id(3, 17), "conversation:3:17");
}

#[test]
fn empty_batches_still_begin_and_checkpoint() {
    let frames = change_batch_frames(&Vec::new(), "c");
    assert_eq!(frames.len(), 2);
    assert_eq!(frames[0].kind, ConversationStreamMessageKind::BatchBegin);
    assert_eq!(frames[1].kind, ConversationStreamMessageKind::Checkpoint);
    assert_eq!(frames[0].id, None);
}

#[test]
fn last_event_id_wins_over_the_after_parameter() {
    let after = Some("not-a-cursor".to_string());
    assert_eq!(
        stream_start_cursor(LastEventIdHeader::Text("snap-1".to_string()), after.clone()).unwrap(),
        Some("snap-1".to_string())
    );
    assert_eq!(
        stream_start_cursor(LastEventIdHeader::Text(String::new()), after.clone()).unwrap(),
        after
    );
    assert_eq!(stream_start_cursor(LastEventIdHeader::Absent, None).unwrap(), None);
    let e = stream_start_cursor(LastEventIdHeader::Unreadable, after).unwrap_err();
    assert_eq!(e.status, 400);
    assert_eq!(e.envelope.code.as_deref(), Some("conversation_cursor_malformed"));
    assert_eq!(e.envelope.error, "Last-Event-ID is not valid UTF-8");
}

#[test]
fn running_streams_read_only_newer_events_of_their_agent() {
    let state = ConversationStreamState { checkpoint: "cp-5".to_string(), through_seq: 5 };
    let published = |agent: Option<&str>, seq: u64| ConversationStreamWake::Published {
        agent_id: agent.map(String::from),
        event_seq: seq,
    };
    assert_eq!(
        conversation_stream_on_wake(&state, "web", published(Some("web"), 6)),
        ConversationStreamAction::ReadAfter("cp-5".to_string())
    );
    assert_eq!(
        conversation_stream_on_wake(&state, "web", published(Some("web"), 5)),
        ConversationStreamAction::Wait
    );
    assert_eq!(
        conversation_stream_on_wake(&state, "web", published(Some("other"), 9)),
        ConversationStreamAction::Wait
    );
    assert_eq!(
        conversation_stream_on_wake(&state, "web", published(None, 9)),
        ConversationStreamAction::Wait
    );
    match conversation_stream_on_wake(&state, "web", ConversationStreamWake::Lagged) {
        ConversationStreamAction::ResetAndEnd(m) => {
            assert_eq!(m.reason, ConversationStreamResetReason::SlowConsumer)
        }
        other => panic!("unexpected {other:?}"),
    }
    assert_eq!(
        conversation_stream_on_wake(&state, "web", ConversationStreamWake::ClientGone),
        ConversationStreamAction::End
    );
}

#[test]
fn reads_advance_the_stream_or_end_it() {
    let mut state = ConversationStreamState { checkpoint: "cp-5".to_string(), through_seq: 5 };
    let a = conversation_stream_on_read(
        &mut state,
        ChangeBatchRead::Batch { checkpoint: "cp-8".to_string(), through_seq: 8 },
    );
    assert_eq!(a, ConversationStreamAction::SendBatch);
    assert_eq!(state, ConversationStreamState { checkpoint: "cp-8".to_string(), through_seq: 8 });
    match conversation_stream_on_read(&mut state, ChangeBatchRead::AgentGone) {
        ConversationStreamAction::ResetAndEnd(m) => {
            assert_eq!(m.reason, ConversationStreamResetReason::AgentNotFound)
        }
        other => panic!("unexpected {other:?}"),
    }
    match conversation_stream_on_read(&mut state, ChangeBatchRead::TimedOut) {
        ConversationStreamAction::ResetAndEnd(m) => {
            assert_eq!(m.reason, ConversationStreamResetReason::StreamRecoveryFailed)
        }
        other => panic!("unexpected {other:?}"),
    }
    match conversation_stream_on_read(
        &mut state,
        ChangeBatchRead::Failed(read(ConversationReadError::ResetRequired {
            reason: ConversationResetReason::RetentionExpired,
            requested_seq: 8,
            oldest_retained_seq: 20,
            event_head_seq: 30,
        })),
    ) {
        ConversationStreamAction::ResetAndEnd(m) => {
            assert_eq!(m.reason, ConversationStreamResetReason::RetentionExpired);
            assert_eq!(m.oldest_retained_seq, Some(20));
        }
        other => panic!("unexpected {other:?}"),
    }
    assert_eq!(
        conversation_stream_on_read(&mut state, ChangeBatchRead::WorkerFailed),
        ConversationStreamAction::End
    );
    assert_eq!(state.through_seq, 8);
}

#[test]
fn a_failed_send_stops_the_batch_before_its_checkpoint() {
    assert_eq!(batch_send_start(4), BatchSendAction::Send(0));
    assert_eq!(batch_send_start(0), BatchSendAction::Finished(true));
    assert_eq!(batch_send_step(4, 0, FrameSendResult::Sent), BatchSendAction::Send(1));
    assert_eq!(batch_send_step(4, 3, FrameSendResult::Sent), BatchSendAction::Finished(true));
    assert_eq!(batch_send_step(4, 1, FrameSendResult::ClientGone), BatchSendAction::Finished(false));
    assert_eq!(batch_send_step(4, 2, FrameSendResult::TimedOut), BatchSendAction::Finished(false));
    assert_eq!(batch_send_step(4, 0, FrameSendResult::Unencodable), BatchSendAction::Finished(false));
}

#[test]
fn batch_begin_and_checkpoint_carry_the_batch_header() {
    let h = ChangeBatchHeader {
        runtime_id: "rt".to_string(),
        event_log_epoch: "ep".to_string(),
        visibility_scope_id: "scope".to_string(),
        from_seq: 4,
        through_seq: 9,
        checkpoint: "cp-9".to_string(),
    };
    let b = batch_begin_message(&h, 1, 2);
    assert_eq!(b.batch_id, "conversation:4:9");
    assert_eq!((b.schema_version, b.query_version, b.from_seq, b.through_seq), (1, 2, 4, 9));
    assert_eq!((b.runtime_id.as_str(), b.event_log_epoch.as_str(), b.visibility_scope_id.as_str()), ("rt", "ep", "scope"));
    let c = checkpoint_message(&h);
    assert_eq!(c.batch_id, "conversation:4:9");
    assert_eq!((c.through_seq, c.checkpoint.as_str()), (9, "cp-9"));
    assert_eq!((c.event_log_epoch.as_str(), c.visibility_scope_id.as_str()), ("ep", "scope"));
}
