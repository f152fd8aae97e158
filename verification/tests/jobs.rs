use holon_http::json::JsonValue;
use holon_http::jobs::{
    codex_login_result, remote_sync_result, skill_install_result,
    apply_job_transition, codex_device_login_job, job_not_found, remote_source_failure_message,
    remote_source_sync_summary, select_remote_sources, skill_install_job, skill_install_summary,
    template_remote_source_sync_job, CodexLoginFailure, JobRegistry, JobTransition,
    RemoteSourceChoice, RemoteSyncSetupFailure, SkillInstallFailure, SkillInstallKind, Timestamp,
};
use holon_http::types::JobStatus;

const T0: Timestamp = Timestamp { secs: 100, nanos: 0 };
const T1: Timestamp = Timestamp { secs: 101, nanos: 5 };

#[test]
fn skill_install_job_lifecycle() {
    let mut reg = JobRegistry::new();
    reg.insert(skill_install_job("job_1".into(), T0));
    let job = reg.get("job_1").unwrap();
    assert_eq!(job.kind, "skill.install");
    assert_eq!(job.status, JobStatus::Queued);
    assert_eq!(job.summary, "Queued skill install job");

    let kind = SkillInstallKind::Remote { package: "acme/skills".into(), skill: Some("lint".into()) };
    reg.update("job_1", T1, JobTransition::StartSkillInstall(kind));
    let job = reg.get("job_1").unwrap();
    assert_eq!(job.status, JobStatus::Running);
    assert_eq!(job.phase, "installing");
    assert_eq!(job.progress.total, 1);
    assert_eq!(job.items[0].summary, "Install remote skill acme/skills@lint");
    assert_eq!(job.updated_at, T1);
    assert_eq!(job.created_at, T0);

    reg.update(
        "job_1",
        T1,
        JobTransition::CompleteSkillInstall {
            skill_name: "lint".into(),
            result: skill_install_result("lint"),
        },
    );
    let job = reg.get("job_1").unwrap();
    assert_eq!(job.status, JobStatus::Completed);
    assert_eq!(job.summary, "Installed lint to the Global Skill Library");
    assert_eq!(job.items[0].id, "lint");
    assert_eq!(job.items[0].summary, "Installed lint");
    assert_eq!(job.progress.current, 1);
}

#[test]
fn skill_install_failures() {
    let mut job = skill_install_job("j".into(), T0);
    apply_job_transition(&mut job, JobTransition::FailSkillInstall(SkillInstallFailure::QueueClosed("closed".into())));
    assert_eq!(job.status, JobStatus::Failed);
    assert_eq!(job.summary, "Skill install queue closed");
    assert_eq!(job.error.as_deref(), Some("skill install queue closed: closed"));
    assert_eq!(job.items[0].id, "skill.install");
    assert_eq!(job.items[0].error.as_deref(), Some("skill install queue closed: closed"));
    let mut job = skill_install_job("j".into(), T0);
    apply_job_transition(&mut job, JobTransition::FailSkillInstall(SkillInstallFailure::InstallFailed("boom".into())));
    assert_eq!(job.summary, "Skill install failed");
    assert_eq!(job.error.as_deref(), Some("boom"));
    assert_eq!(
        skill_install_summary(&SkillInstallKind::Named { name: "fmt".into() }),
        "Install named skill fmt"
    );
    assert_eq!(
        skill_install_summary(&SkillInstallKind::Local { path: "/s/x".into() }),
        "Install local skill /s/x"
    );
    assert_eq!(
        skill_install_summary(&SkillInstallKind::Remote { package: "p".into(), skill: None }),
        "Install remote skill package p"
    );
}

#[test]
fn remote_source_sync_counts_outcomes() {
    let configured = vec![
        RemoteSourceChoice { source_id: "a".into(), enabled: true },
        RemoteSourceChoice { source_id: "b".into(), enabled: false },
        RemoteSourceChoice { source_id: "c".into(), enabled: true },
    ];
    let all = select_remote_sources(&configured, None);
    assert_eq!(all, vec!["a".to_string(), "c".to_string()]);
    assert_eq!(select_remote_sources(&configured, Some("c")), vec!["c".to_string()]);
    assert!(select_remote_sources(&configured, Some("b")).is_empty());

    let mut job = template_remote_source_sync_job("s".into(), T0);
    apply_job_transition(&mut job, JobTransition::StartRemoteSourceSync { source_ids: all });
    assert_eq!(job.progress.total, 2);
    assert_eq!(job.items[1].summary, "Queued sync for c");
    assert_eq!(job.items[1].status, JobStatus::Queued);
    apply_job_transition(&mut job, JobTransition::RemoteSourceRunning { source_id: "a".into() });
    assert_eq!(job.items[0].summary, "Syncing a");
    apply_job_transition(&mut job, JobTransition::RemoteSourceSynced { source_id: "a".into(), completed: 1, failed: 0 });
    assert_eq!(job.items[0].status, JobStatus::Completed);
    let message = remote_source_failure_message("timeout", Some("db locked"));
    assert_eq!(message, "timeout; additionally failed to persist sync failure: db locked");
    apply_job_transition(
        &mut job,
        JobTransition::RemoteSourceFailed { source_id: "c".into(), message, completed: 1, failed: 1 },
    );
    assert_eq!(job.progress.current, 2);
    assert_eq!(job.items[1].summary, "Failed to sync c");
    apply_job_transition(
        &mut job,
        JobTransition::FinishRemoteSourceSync {
            completed: 1,
            failed: 1,
            result: remote_sync_result(vec![JsonValue::Null], 1, 1),
        },
    );
    assert_eq!(job.status, JobStatus::Failed);
    assert_eq!(job.summary, "Synced 1 agent template remote source(s), 1 failed");
    assert_eq!(job.error.as_deref(), Some(job.summary.as_str()));
    assert_eq!(remote_source_sync_summary(12, 0), "Synced 12 agent template remote source(s)");
}

#[test]
fn remote_source_sync_setup_failures() {
    let mut job = template_remote_source_sync_job("s".into(), T0);
    apply_job_transition(&mut job, JobTransition::FailMissingRemoteSource { source_id: "x".into() });
    assert_eq!(job.status, JobStatus::Failed);
    assert_eq!(
        job.error.as_deref(),
        Some("agent template remote source x was not found or is disabled")
    );
    assert_eq!(job.items[0].summary, "Remote source was not found or is disabled");

    let mut job = template_remote_source_sync_job("s".into(), T0);
    apply_job_transition(
        &mut job,
        JobTransition::StartRemoteSourceSync { source_ids: vec!["a".into(), "b".into()] },
    );
    apply_job_transition(
        &mut job,
        JobTransition::FailRemoteSourceSync(RemoteSyncSetupFailure::QueueClosed("gone".into())),
    );
    assert_eq!(job.summary, "Remote source sync queue closed");
    for item in &job.items {
        assert_eq!(item.status, JobStatus::Failed);
        assert_eq!(item.error.as_deref(), Some("remote source sync queue closed: gone"));
    }
    assert_eq!(job.items[0].summary, "Queued sync for a");
}

#[test]
fn codex_device_login_lifecycle() {
    let mut job = codex_device_login_job("c".into(), T0);
    assert_eq!(job.phase, "waiting_for_user");
    assert_eq!((job.progress.current, job.progress.total), (1, 3));
    apply_job_transition(&mut job, JobTransition::StartCodexDeviceLogin);
    assert_eq!(job.status, JobStatus::Running);
    apply_job_transition(&mut job, JobTransition::PersistCodexCredential);
    assert_eq!(job.progress.current, 2);
    apply_job_transition(&mut job, JobTransition::CompleteCodexDeviceLogin {
        result: codex_login_result("openai-codex", JsonValue::Null, JsonValue::Null, None),
    });
    assert_eq!(job.status, JobStatus::Completed);
    assert_eq!(job.progress.current, 3);
    let mut failed = codex_device_login_job("c".into(), T0);
    apply_job_transition(
        &mut failed,
        JobTransition::FailCodexDeviceLogin(CodexLoginFailure::PersistFailed("disk full".into())),
    );
    assert_eq!(failed.summary, "OpenAI Codex credential persist failed");
    assert_eq!(failed.progress.current, 3);
    assert_eq!(failed.items[0].id, "auth.codex.device_login");
}

#[test]
fn registry_reads_back_what_was_written() {
    let mut reg = JobRegistry::new();
    reg.insert(skill_install_job("a".into(), T0));
    reg.insert(skill_install_job("b".into(), T0));
    reg.insert(template_remote_source_sync_job("a".into(), T1));
    assert_eq!(reg.get("a").unwrap().kind, "agent_template.remote_sources.sync");
    assert_eq!(reg.get("b").unwrap().kind, "skill.install");
    assert!(reg.get("zzz").is_none());
    reg.update("zzz", T1, JobTransition::StartCodexDeviceLogin);
    assert!(reg.get("zzz").is_none());
    let err = job_not_found("zzz");
    assert_eq!(err.status, 404);
    assert_eq!(err.envelope.error, "job zzz was not found");
    assert_eq!(err.envelope.code.as_deref(), Some("job_not_found"));
}

fn text(s: &str) -> JsonValue {
    JsonValue::Text(s.to_string())
}

#[test]
fn job_result_documents() {
    assert_eq!(
        skill_install_result("lint"),
        JsonValue::Object(vec![
            ("library".to_string(), text("user_global")),
            ("skill_name".to_string(), text("lint")),
        ])
    );
    assert_eq!(
        remote_sync_result(vec![text("a")], 1, 0),
        JsonValue::Object(vec![
            ("completed".to_string(), JsonValue::Number("1".to_string())),
            ("failed".to_string(), JsonValue::Number("0".to_string())),
            ("sources".to_string(), JsonValue::Array(vec![text("a")])),
        ])
    );
    assert_eq!(
        codex_login_result("openai-codex", text("default"), text("oauth"), Some("acct".to_string())),
        JsonValue::Object(vec![
            ("account_id".to_string(), text("acct")),
            ("auth_kind".to_string(), text("oauth")),
            ("configured".to_string(), JsonValue::Bool(true)),
            ("profile".to_string(), text("default")),
            ("provider_id".to_string(), text("openai-codex")),
        ])
    );
}
