use holon_http::json::JsonValue;
use holon_http::ingress::{
    build_callback_delivery_payload, check_callback_delivery_mode, is_json_content_type,
    is_text_content_type, parse_callback_body, CallbackBody, CallbackDeliveryMode,
    CallbackIngressMode,
};

#[test]
fn content_type_classes() {
    assert!(is_json_content_type("application/json"));
    assert!(is_json_content_type("application/json; charset=utf-8"));
    assert!(is_json_content_type(" application/ld+json "));
    assert!(!is_json_content_type("application/jsonl"));
    assert!(is_text_content_type("text/plain; charset=utf-8"));
    assert!(!is_text_content_type("application/text"));
}

#[test]
fn delivery_modes() {
    assert_eq!(CallbackIngressMode::Enqueue.delivery_mode(), CallbackDeliveryMode::EnqueueMessage);
    assert_eq!(CallbackIngressMode::Wake.delivery_mode(), CallbackDeliveryMode::WakeHint);
    assert!(check_callback_delivery_mode(CallbackDeliveryMode::WakeHint, CallbackIngressMode::Wake).is_ok());
    let err = check_callback_delivery_mode(CallbackDeliveryMode::WakeHint, CallbackIngressMode::Enqueue)
        .unwrap_err();
    assert_eq!(err.status, 403);
    assert_eq!(err.envelope.error, "callback delivery mode mismatch");
}

#[test]
fn bodies_by_content_type() {
    match parse_callback_body(Some("application/json"), br#"{"a":1}"#).unwrap() {
        CallbackBody::Json(v) => assert_eq!(
            v,
            JsonValue::Object(vec![("a".to_string(), JsonValue::Number("1".to_string()))])
        ),
        other => panic!("unexpected {other:?}"),
    }
    let err = parse_callback_body(Some("application/json"), b"{").unwrap_err();
    assert!(err.starts_with("invalid JSON callback body: "));
    match parse_callback_body(Some("text/plain"), "héllo".as_bytes()).unwrap() {
        CallbackBody::Text(t) => assert_eq!(t, "héllo"),
        other => panic!("unexpected {other:?}"),
    }
    let err = parse_callback_body(Some("text/plain"), &[0xff]).unwrap_err();
    assert!(err.starts_with("invalid UTF-8 callback body: "));
    match parse_callback_body(Some("image/png"), b"abc").unwrap() {
        CallbackBody::Base64 { content_type, body_base64 } => {
            assert_eq!(content_type.as_deref(), Some("image/png"));
            assert_eq!(body_base64, "YWJj");
        }
        other => panic!("unexpected {other:?}"),
    }
    match parse_callback_body(None, b"plain").unwrap() {
        CallbackBody::Text(t) => assert_eq!(t, "plain"),
        other => panic!("unexpected {other:?}"),
    }
    match parse_callback_body(None, &[0xff, 0x00]).unwrap() {
        CallbackBody::Base64 { content_type, body_base64 } => {
            assert!(content_type.is_none());
            assert_eq!(body_base64, "/wA=");
        }
        other => panic!("unexpected {other:?}"),
    }
}

#[test]
fn delivery_payloads() {
    let p = build_callback_delivery_payload(Some("text/plain".into()), b"").unwrap();
    assert!(p.body.is_none());
    assert_eq!(p.content_type.as_deref(), Some("text/plain"));
    assert!(p.correlation_id.is_none() && p.causation_id.is_none());
    let p = build_callback_delivery_payload(None, b"hi").unwrap();
    assert!(matches!(p.body, Some(CallbackBody::Text(ref t)) if t == "hi"));
    assert!(build_callback_delivery_payload(Some("application/json".into()), b"nope").is_err());
}

#[test]
fn json_bodies_are_the_document_the_bytes_hold() {
    match parse_callback_body(Some("application/json"), br#"[null, true, "x", {"k": 2.5}]"#).unwrap() {
        CallbackBody::Json(v) => assert_eq!(
            v,
            JsonValue::Array(vec![
                JsonValue::Null,
                JsonValue::Bool(true),
                JsonValue::Text("x".to_string()),
                JsonValue::Object(vec![("k".to_string(), JsonValue::Number("2.5".to_string()))]),
            ])
        ),
        other => panic!("unexpected {other:?}"),
    }
    match parse_callback_body(Some("application/json"), b"null").unwrap() {
        CallbackBody::Json(v) => assert_eq!(v, JsonValue::Null),
        other => panic!("unexpected {other:?}"),
    }
}
