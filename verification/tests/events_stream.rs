use holon_http::errors::{AgentEventRecoveryWindow, ExtensionValue};
use holon_http::events::{
    buffered_event_step, envelope_event_log_epoch, event_fallback_summary, event_window_limit,
    events_page_params, initial_buffered_start, is_private_event_payload_key, live_event_step,
    newest_seq, oldest_seq, public_event_payload, refresh_buffered_start, EventsQuery,
};
use holon_http::json::JsonValue;
use holon_http::types::EventPageOrder;

fn window() -> AgentEventRecoveryWindow {
    AgentEventRecoveryWindow {
        event_log_epoch: "epoch-1".into(),
        oldest_retained_seq: Some(5),
        event_head_seq: 9,
    }
}

#[test]
fn window_limits_are_clamped() {
    assert_eq!(event_window_limit(None), 128);
    assert_eq!(event_window_limit(Some(0)), 1);
    assert_eq!(event_window_limit(Some(7)), 7);
    assert_eq!(event_window_limit(Some(10_000)), 512);
    let q = EventsQuery { before_seq: None, after_seq: None, limit: None, order: None, event_kind: None };
    assert_eq!(events_page_params(&q), (128, EventPageOrder::Desc));
    let q = EventsQuery { order: Some(EventPageOrder::Asc), limit: Some(3), ..q };
    assert_eq!(events_page_params(&q), (3, EventPageOrder::Asc));
}

#[test]
fn resume_start_positions() {
    let seqs = vec![5, 6, 7, 8, 9];
    assert_eq!(initial_buffered_start(&seqs, None, &window()).unwrap(), 5);
    assert_eq!(initial_buffered_start(&seqs, Some(0), &window()).unwrap(), 0);
    assert_eq!(initial_buffered_start(&seqs, Some(7), &window()).unwrap(), 3);
    assert_eq!(initial_buffered_start(&seqs, Some(9), &window()).unwrap(), 5);
    let err = initial_buffered_start(&seqs, Some(3), &window()).unwrap_err();
    assert_eq!(err.status, 404);
    assert_eq!(err.envelope.code.as_deref(), Some("cursor_not_found"));
    assert_eq!(err.envelope.error, "after_seq 3 was not found in the replay window");
    assert_eq!(err.envelope.extensions[2].1, ExtensionValue::Text("epoch-1".into()));
    assert_eq!(err.envelope.extensions[3].1, ExtensionValue::OptionalUnsigned(Some(5)));
    assert_eq!(err.envelope.extensions[4].1, ExtensionValue::Unsigned(9));
}

#[test]
fn page_bounds_follow_order() {
    let seqs = vec![9, 8, 7];
    assert_eq!(oldest_seq(&seqs, EventPageOrder::Desc), Some(7));
    assert_eq!(newest_seq(&seqs, EventPageOrder::Desc), Some(9));
    assert_eq!(oldest_seq(&seqs, EventPageOrder::Asc), Some(9));
    assert_eq!(newest_seq(&seqs, EventPageOrder::Asc), Some(7));
    assert_eq!(oldest_seq(&Vec::new(), EventPageOrder::Asc), None);
}

#[test]
fn live_stream_forwards_each_event_once() {
    let mut last = buffered_event_step(0, 4);
    assert_eq!(last, 4);
    last = buffered_event_step(last, 2);
    assert_eq!(last, 4);
    let mut sent = Vec::new();
    for (agent, seq) in [
        (Some("a"), 3u64),
        (Some("a"), 5),
        (Some("b"), 6),
        (None, 7),
        (Some("a"), 5),
        (Some("a"), 8),
    ] {
        let (forward, next) = live_event_step(last, "a", agent, seq);
        if forward {
            sent.push(seq);
        }
        last = next;
    }
    assert_eq!(sent, vec![5, 8]);
    assert_eq!(last, 8);
}

#[test]
fn payload_keys_and_summaries() {
    assert!(is_private_event_payload_key("prompt_cache_key"));
    assert!(is_private_event_payload_key("only_sleep_tools"));
    assert!(!is_private_event_payload_key("summary"));
    assert_eq!(event_fallback_summary(Some("did it"), "tool_call"), "did it");
    assert_eq!(event_fallback_summary(Some("  "), "tool_call"), "tool_call");
    assert_eq!(event_fallback_summary(None, "tool_call"), "tool_call");
    assert_eq!(envelope_event_log_epoch("", "e1"), "e1");
    assert_eq!(envelope_event_log_epoch("e0", "e1"), "e0");
}

#[test]
fn refreshed_window_resumes_after_the_last_sent_event() {
    let seqs = vec![7u64, 8, 9, 10];
    assert_eq!(refresh_buffered_start(&seqs, 0), Ok(0));
    assert_eq!(refresh_buffered_start(&seqs, 8), Ok(2));
    assert_eq!(refresh_buffered_start(&seqs, 10), Ok(4));
    assert_eq!(refresh_buffered_start(&seqs, 3), Err(3));
    assert_eq!(refresh_buffered_start(&Vec::new(), 5), Err(5));
}

#[test]
fn public_payloads_lose_exactly_the_private_keys() {
    let payload = JsonValue::Object(vec![
        ("summary".to_string(), JsonValue::Text("done".to_string())),
        ("prompt_cache_key".to_string(), JsonValue::Text("k".to_string())),
        ("provider_request_id".to_string(), JsonValue::Text("r".to_string())),
        ("only_sleep_tools".to_string(), JsonValue::Bool(true)),
        ("round".to_string(), JsonValue::Number("2".to_string())),
    ]);
    assert_eq!(
        public_event_payload(payload),
        JsonValue::Object(vec![
            ("summary".to_string(), JsonValue::Text("done".to_string())),
            ("round".to_string(), JsonValue::Number("2".to_string())),
        ])
    );
    assert_eq!(public_event_payload(JsonValue::Text("x".to_string())), JsonValue::Text("x".to_string()));
}
