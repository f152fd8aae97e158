use holon_http::enqueue::{enqueue_admission, enqueue_body, MessageBody, MessageKind, Priority};
use holon_http::json::JsonValue;
use holon_http::types::{AuthorityClass, IncomingOrigin, MessageOrigin};

fn webhook(source: &str) -> IncomingOrigin {
    IncomingOrigin::Webhook { source: source.to_string(), event_type: None }
}

fn refusal(
    kind: Option<MessageKind>,
    priority: Option<Priority>,
    origin: Option<IncomingOrigin>,
    authority: Option<AuthorityClass>,
    public: bool,
) -> String {
    let e = enqueue_admission(kind, priority, origin, authority, public, AuthorityClass::IntegrationSignal)
        .unwrap_err();
    assert_eq!(e.status, 403);
    e.envelope.error
}

#[test]
fn runtime_owned_kinds_are_refused_everywhere() {
    for public in [true, false] {
        assert_eq!(
            refusal(Some(MessageKind::SystemTick), None, None, None, public),
            "runtime-owned message kinds may not be enqueued externally"
        );
        assert_eq!(
            refusal(Some(MessageKind::CallbackEvent), None, None, None, public),
            "runtime-owned message kinds may not be enqueued externally"
        );
    }
}

#[test]
fn public_requests_are_restricted() {
    assert_eq!(
        refusal(None, Some(Priority::Interject), None, None, true),
        "public enqueue may not use interject priority"
    );
    assert_eq!(
        refusal(None, None, Some(IncomingOrigin::Operator { actor_id: None }), None, true),
        "public enqueue only accepts channel or webhook origins"
    );
    assert_eq!(
        refusal(None, None, Some(webhook("github")), Some(AuthorityClass::OperatorInstruction), true),
        "public enqueue may not override authority_class"
    );
}

#[test]
fn admitted_requests_take_defaults() {
    let a = enqueue_admission(None, None, None, None, true, AuthorityClass::IntegrationSignal).unwrap();
    assert_eq!(a.kind, MessageKind::WebhookEvent);
    assert_eq!(a.priority, Priority::Normal);
    assert_eq!(a.origin, MessageOrigin::Webhook { source: "http".to_string(), event_type: None });
    assert_eq!(a.authority, AuthorityClass::IntegrationSignal);
}

#[test]
fn trusted_requests_keep_what_they_name() {
    let a = enqueue_admission(
        Some(MessageKind::OperatorPrompt),
        Some(Priority::Interject),
        Some(IncomingOrigin::Operator { actor_id: Some("op".to_string()) }),
        Some(AuthorityClass::OperatorInstruction),
        false,
        AuthorityClass::IntegrationSignal,
    )
    .unwrap();
    assert_eq!(a.priority, Priority::Interject);
    assert_eq!(a.origin, MessageOrigin::Operator { actor_id: Some("op".to_string()) });
    assert_eq!(a.authority, AuthorityClass::OperatorInstruction);
}

#[test]
fn bodies_default_to_text_then_json_then_empty() {
    assert_eq!(
        enqueue_body(None, Some("hi".to_string()), Some(JsonValue::Null)),
        MessageBody::Text { text: "hi".to_string() }
    );
    assert_eq!(enqueue_body(None, None, Some(JsonValue::Bool(true))), MessageBody::Json { value: JsonValue::Bool(true) });
    assert_eq!(enqueue_body(None, None, None), MessageBody::Text { text: String::new() });
    assert_eq!(
        enqueue_body(Some(MessageBody::Json { value: JsonValue::Null }), Some("x".to_string()), None),
        MessageBody::Json { value: JsonValue::Null }
    );
}
