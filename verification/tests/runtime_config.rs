use holon_http::control::{
    apply_config_reload_outcome, is_runtime_mutable_config_key, reject_accepted_runtime_config_results,
    runtime_config_apply_result, runtime_config_precheck, settle_runtime_config_batch,
    RuntimeConfigUpdateEffect, RuntimeConfigUpdateResult,
};

fn accepted(key: &str) -> RuntimeConfigUpdateResult {
    runtime_config_apply_result(key.to_string(), Ok(()))
}

#[test]
fn mutable_keys() {
    assert!(is_runtime_mutable_config_key("model.default"));
    assert!(is_runtime_mutable_config_key("api.cors.max_age_seconds"));
    assert!(is_runtime_mutable_config_key("providers.openai.api_key_env"));
    assert!(is_runtime_mutable_config_key("web."));
    assert!(!is_runtime_mutable_config_key("web"));
    assert!(!is_runtime_mutable_config_key("api.listen_addr"));
    assert!(!is_runtime_mutable_config_key("model.default.extra"));
}

#[test]
fn precheck_rejects_unsupported_and_valueless_updates() {
    let r = runtime_config_precheck(&"home_dir".to_string(), false, true).unwrap();
    assert_eq!(r.effect, RuntimeConfigUpdateEffect::Rejected);
    assert_eq!(r.reason, "unsupported or startup-only config key");
    let r = runtime_config_precheck(&"model.default".to_string(), false, false).unwrap();
    assert_eq!(r.effect, RuntimeConfigUpdateEffect::Rejected);
    assert_eq!(
        r.reason,
        "runtime config update for model.default requires value or unset=true"
    );
    assert!(runtime_config_precheck(&"model.default".to_string(), true, false).is_none());
    assert!(runtime_config_precheck(&"model.default".to_string(), false, true).is_none());
}

#[test]
fn apply_result_forms() {
    let ok = accepted("model.default");
    assert_eq!(ok.effect, RuntimeConfigUpdateEffect::AcceptedRequiresRestart);
    assert!(ok.reason.starts_with("persisted in config.json;"));
    let err = runtime_config_apply_result("model.default".into(), Err("bad value".into()));
    assert_eq!(err.effect, RuntimeConfigUpdateEffect::Rejected);
    assert_eq!(err.reason, "bad value");
}

#[test]
fn one_rejection_withdraws_the_whole_batch() {
    let mut results = vec![
        accepted("model.default"),
        runtime_config_precheck(&"home_dir".to_string(), false, true).unwrap(),
        accepted("web.enabled"),
    ];
    let changed = settle_runtime_config_batch(&mut results, None);
    assert!(!changed);
    for r in &results {
        assert_eq!(r.effect, RuntimeConfigUpdateEffect::Rejected);
    }
    assert!(results[0]
        .reason
        .starts_with("batch rejected; no runtime config updates were persisted: persisted in"));
    assert_eq!(results[1].reason, "unsupported or startup-only config key");
}

#[test]
fn invalid_candidate_withdraws_acceptances() {
    let mut results = vec![accepted("model.default")];
    let changed = settle_runtime_config_batch(&mut results, Some("missing provider".into()));
    assert!(!changed);
    assert_eq!(results[0].effect, RuntimeConfigUpdateEffect::Rejected);
    assert!(results[0]
        .reason
        .starts_with("updated config is invalid: missing provider: persisted"));
}

#[test]
fn valid_batch_changes_config() {
    let mut results = vec![accepted("model.default"), accepted("web.enabled")];
    let before = results.clone();
    assert!(settle_runtime_config_batch(&mut results, None));
    assert_eq!(results, before);
    assert!(!settle_runtime_config_batch(&mut Vec::new(), None));
}

#[test]
fn withdrawal_keeps_empty_reasons_bare() {
    let mut results = vec![RuntimeConfigUpdateResult {
        key: "k".into(),
        effect: RuntimeConfigUpdateEffect::AcceptedRequiresRestart,
        reason: String::new(),
    }];
    reject_accepted_runtime_config_results(&mut results, "stop");
    assert_eq!(results[0].reason, "stop");
    assert_eq!(results[0].effect, RuntimeConfigUpdateEffect::Rejected);
}

#[test]
fn reload_outcome_marks_accepted_results() {
    let mut results = vec![accepted("a"), accepted("b")];
    apply_config_reload_outcome(&mut results, None);
    for r in &results {
        assert_eq!(r.effect, RuntimeConfigUpdateEffect::AcceptedReloaded);
        assert_eq!(r.reason, "applied via hot-reload");
    }
    let mut results = vec![accepted("a")];
    apply_config_reload_outcome(&mut results, Some("provider down".into()));
    assert_eq!(results[0].effect, RuntimeConfigUpdateEffect::AcceptedRequiresRestart);
    assert_eq!(
        results[0].reason,
        "persisted in config.json, but hot-reload failed: provider down"
    );
}
