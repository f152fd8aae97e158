use holon_http::errors::{
    abort_error_response, agent_access_error, auth_required, parse_blocked_by_mutation,
    require_non_empty, stopped_agent_conflict, task_lifecycle_error,
    template_install_error_response, timer_lifecycle_error, work_item_lifecycle_error,
    BlockedByValue, CurrentRunAbortError, ExtensionValue, HttpErrorEnvelope, PublicAgentError,
    RunAbortFailure, skill_install_error_response, wake_access_error, SkillInstallFailure,
};
use holon_http::control::check_wake_reason;
use holon_http::types::{into_origin, IncomingOrigin, MessageOrigin, SearchRequest};
use holon_http::validation::{
    non_empty_opt, non_empty_str, normalize_optional_non_empty, normalize_search_agent_ids,
    search_query_and_limit, validate_reasoning_effort,
};

#[test]
fn envelope_extensions_replace_in_place() {
    let env = HttpErrorEnvelope::new("boom".into())
        .extension("a".into(), ExtensionValue::Unsigned(1))
        .extension("b".into(), ExtensionValue::Flag(true))
        .extension("a".into(), ExtensionValue::Unsigned(2));
    assert_eq!(env.extensions.len(), 2);
    assert_eq!(env.extensions[0], ("a".to_string(), ExtensionValue::Unsigned(2)));
    assert_eq!(env.extensions[1].0, "b");
    assert!(!env.ok);
}

#[test]
fn auth_and_lifecycle_statuses() {
    let e = auth_required("missing token".into());
    assert_eq!(e.status, 401);
    assert!(!e.envelope.ok);
    assert_eq!(e.envelope.error, "missing token");
    assert_eq!(e.envelope.code.as_deref(), Some("auth_required"));
    assert_eq!(
        e.envelope.hint.as_deref(),
        Some("retry with an Authorization: Bearer <token> header")
    );
    assert_eq!(task_lifecycle_error("task t1 not found".into()).status, 404);
    assert_eq!(task_lifecycle_error("task t1 crashed".into()).status, 500);
    assert_eq!(work_item_lifecycle_error("Work Item w1 Not Found".into()).status, 404);
    assert_eq!(work_item_lifecycle_error("unknown work item w2".into()).status, 404);
    assert_eq!(work_item_lifecycle_error("cannot complete w1".into()).status, 400);
    assert_eq!(work_item_lifecycle_error("disk full".into()).status, 500);
    assert_eq!(timer_lifecycle_error("timer x not found".into()).status, 404);
    assert_eq!(timer_lifecycle_error("cannot cancel x".into()).status, 400);
    assert_eq!(timer_lifecycle_error("timer x exploded".into()).status, 500);
}

#[test]
fn agent_access_errors() {
    let e = agent_access_error(PublicAgentError::Private { agent_id: "a1".into() });
    assert_eq!((e.status, e.envelope.error.as_str()), (403, "agent a1 is private"));
    let e = agent_access_error(PublicAgentError::NotFound { agent_id: "a1".into() });
    assert_eq!((e.status, e.envelope.error.as_str()), (404, "agent a1 not found"));
    let e = agent_access_error(PublicAgentError::Archived { agent_id: "a1".into() });
    assert_eq!((e.status, e.envelope.error.as_str()), (404, "agent a1 is archived"));
    let e = agent_access_error(PublicAgentError::Stopped { agent_id: "a1".into() });
    assert_eq!(e.status, 409);
    assert_eq!(e.envelope.code.as_deref(), Some("agent_stopped"));
    let e = stopped_agent_conflict("stopped".into(), "a1".into());
    assert_eq!(
        e.envelope.hint.as_deref(),
        Some("start with `holon agent start a1` or POST /control/agents/a1/control with JSON body {\"action\":\"start\"}")
    );
    assert_eq!(e.envelope.extensions[0], ("agent_id".to_string(), ExtensionValue::Text("a1".into())));
}

#[test]
fn abort_and_mutation_errors() {
    let e = abort_error_response(RunAbortFailure::Refused(CurrentRunAbortError::StaleRunId {
        requested_run_id: "r1".into(),
        current_run_id: "r2".into(),
    }));
    assert_eq!(e.status, 409);
    assert_eq!(e.envelope.error, "stale run_id r1; current run is r2");
    assert_eq!(e.envelope.code.as_deref(), Some("stale_run_id"));
    let e = abort_error_response(RunAbortFailure::Refused(CurrentRunAbortError::NoCurrentRun {
        agent_id: "a".into(),
    }));
    assert_eq!(e.envelope.error, "agent a has no current run to abort");
    let e = abort_error_response(RunAbortFailure::Other("io".into()));
    assert_eq!(e.status, 500);

    assert_eq!(parse_blocked_by_mutation(BlockedByValue::Null).unwrap(), None);
    assert_eq!(
        parse_blocked_by_mutation(BlockedByValue::Text("  w9 ".into())).unwrap().as_deref(),
        Some("w9")
    );
    assert_eq!(parse_blocked_by_mutation(BlockedByValue::Text("   ".into())).unwrap(), None);
    let e = parse_blocked_by_mutation(BlockedByValue::Other).unwrap_err();
    assert_eq!((e.status, e.envelope.error.as_str()), (400, "blocked_by must be a string or null"));

    let e = template_install_error_response("bad template".into());
    assert_eq!(e.status, 400);
    assert_eq!(e.envelope.code.as_deref(), Some("template_install_failed"));
    let e = require_non_empty("  ".into(), "name").unwrap_err();
    assert_eq!(e.envelope.error, "name must not be empty");
    assert_eq!(require_non_empty("x".into(), "name").unwrap(), "x");
}

#[test]
fn request_normalization() {
    assert_eq!(non_empty_opt("  ".into()), None);
    assert_eq!(non_empty_opt(" a ".into()).as_deref(), Some(" a "));
    assert_eq!(non_empty_str(" "), None);
    assert_eq!(normalize_optional_non_empty(Some(" b ".into())).as_deref(), Some("b"));
    assert_eq!(normalize_optional_non_empty(Some(" ".into())), None);
    assert!(validate_reasoning_effort("xhigh").is_ok());
    let e = validate_reasoning_effort("max").unwrap_err();
    assert_eq!(
        e.envelope.error,
        "invalid reasoning_effort 'max'; must be one of low, medium, high, xhigh"
    );
    assert_eq!(
        normalize_search_agent_ids(Some(vec![" a ".into(), "b".into(), "a".into()])).unwrap(),
        vec!["a".to_string(), "b".to_string()]
    );
    assert!(normalize_search_agent_ids(Some(vec!["a".into(), " ".into()])).is_err());
    assert!(normalize_search_agent_ids(None).unwrap().is_empty());
    let req = SearchRequest {
        query: "  hello ".into(),
        limit: Some(500),
        include_all_workspaces: false,
        agent_ids: None,
        types: Vec::new(),
    };
    assert_eq!(search_query_and_limit(&req).unwrap(), ("hello".to_string(), 50));
    let blank = SearchRequest { query: " ".into(), limit: None, ..req };
    assert_eq!(search_query_and_limit(&blank).unwrap_err().envelope.error, "query must not be empty");
    assert_eq!(
        into_origin(IncomingOrigin::Timer { timer_id: "t".into() }),
        MessageOrigin::Timer { timer_id: "t".into() }
    );
}

#[test]
fn skill_install_failures_map_to_typed_errors() {
    let e = skill_install_error_response(SkillInstallFailure::AlreadyInstalled {
        message: "skill demo is already installed".to_string(),
        skill_name: "demo".to_string(),
        destination: "/home/u/.agents/skills/demo".to_string(),
    });
    assert_eq!(e.status, 409);
    assert_eq!(e.envelope.code.as_deref(), Some("skill_already_installed"));
    assert_eq!(
        e.envelope.hint.as_deref(),
        Some("uninstall the existing skill first or choose a different skill name")
    );
    assert_eq!(e.envelope.extensions[0], ("skill_name".to_string(), ExtensionValue::Text("demo".to_string())));

    let e = skill_install_error_response(SkillInstallFailure::ManagerUnavailable {
        message: "npx not found".to_string(),
        manager: "npx".to_string(),
    });
    assert_eq!(e.status, 424);
    assert_eq!(e.envelope.code.as_deref(), Some("skill_manager_unavailable"));

    let e = skill_install_error_response(SkillInstallFailure::RemoteInstallFailed {
        message: "install failed".to_string(),
        package: "pkg".to_string(),
        exit_status: Some(1),
        stdout: "out".to_string(),
        stderr: "err".to_string(),
    });
    assert_eq!(e.status, 502);
    assert_eq!(e.envelope.extensions[1], ("exit_status".to_string(), ExtensionValue::OptionalSigned(Some(1))));
    assert_eq!(e.envelope.extensions.len(), 4);

    let e = skill_install_error_response(SkillInstallFailure::RemoteInstallTimedOut {
        message: "timed out".to_string(),
        package: "pkg".to_string(),
        timeout_secs: 120,
    });
    assert_eq!(e.status, 504);
    assert_eq!(e.envelope.extensions[1], ("timeout_seconds".to_string(), ExtensionValue::Unsigned(120)));

    let e = skill_install_error_response(SkillInstallFailure::Other("boom".to_string()));
    assert_eq!(e.status, 500);
    assert_eq!(e.envelope.error, "boom");
}

#[test]
fn service_unavailable_is_a_plain_503() {
    let e = holon_http::errors::service_unavailable("runtime is shutting down".to_string());
    assert_eq!(e.status, 503);
    assert_eq!(e.envelope.error, "runtime is shutting down");
    assert!(e.envelope.code.is_none() && e.envelope.hint.is_none());
}

#[test]
fn wakes_do_not_start_stopped_agents() {
    let e = wake_access_error(PublicAgentError::Stopped { agent_id: "web".to_string() });
    assert_eq!(e.status, 409);
    assert_eq!(e.envelope.error, "agent web is stopped; wake does not override stopped; start first");
    assert_eq!(e.envelope.code.as_deref(), Some("agent_stopped"));
    assert_eq!(e.envelope.extensions, vec![("agent_id".to_string(), ExtensionValue::Text("web".to_string()))]);
    let e = wake_access_error(PublicAgentError::NotFound { agent_id: "ghost".to_string() });
    assert_eq!(e.status, 404);
    assert_eq!(e.envelope.error, "agent ghost not found");
}

#[test]
fn wake_reasons_must_not_be_blank() {
    assert!(check_wake_reason("ci finished").is_ok());
    let e = check_wake_reason(" \t").unwrap_err();
    assert_eq!(e.status, 403);
    assert_eq!(e.envelope.error, "wake reason may not be empty");
}
