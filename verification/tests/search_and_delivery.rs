use holon_http::validation::{
    filter_search_results, validate_operator_transport_delivery_auth, OperatorTransportDeliveryAuth,
    OperatorTransportDeliveryAuthKind, SearchHit,
};

fn hits() -> Vec<SearchHit<u32>> {
    vec![
        SearchHit { kind: "brief".to_string(), hit: 1 },
        SearchHit { kind: "message".to_string(), hit: 2 },
        SearchHit { kind: "brief".to_string(), hit: 3 },
        SearchHit { kind: "transcript".to_string(), hit: 4 },
    ]
}

#[test]
fn no_types_keeps_every_hit() {
    assert_eq!(filter_search_results(hits(), &Vec::new()), hits());
}

#[test]
fn requested_types_keep_order() {
    let kept = filter_search_results(hits(), &vec!["transcript".to_string(), "brief".to_string()]);
    let ids: Vec<u32> = kept.iter().map(|h| h.hit).collect();
    assert_eq!(ids, vec![1, 3, 4]);
    assert!(filter_search_results(hits(), &vec!["none".to_string()]).is_empty());
}

#[test]
fn bearer_delivery_needs_a_token() {
    let ok = OperatorTransportDeliveryAuth {
        kind: OperatorTransportDeliveryAuthKind::Bearer,
        bearer_token: Some(" secret ".to_string()),
    };
    assert_eq!(validate_operator_transport_delivery_auth(ok.clone()).unwrap(), ok);
    for token in [None, Some("   ".to_string())] {
        let e = validate_operator_transport_delivery_auth(OperatorTransportDeliveryAuth {
            kind: OperatorTransportDeliveryAuthKind::Bearer,
            bearer_token: token,
        })
        .unwrap_err();
        assert_eq!(e.status, 400);
        assert_eq!(
            e.envelope.error,
            "delivery_auth.bearer_token must be non-empty when kind is bearer"
        );
    }
}

#[test]
fn hmac_delivery_is_refused() {
    let e = validate_operator_transport_delivery_auth(OperatorTransportDeliveryAuth {
        kind: OperatorTransportDeliveryAuthKind::Hmac,
        bearer_token: Some("x".to_string()),
    })
    .unwrap_err();
    assert_eq!(e.status, 400);
    assert_eq!(
        e.envelope.error,
        "delivery_auth.kind=hmac is not supported until HMAC signing is implemented"
    );
}
