//! Background jobs (skill installs, template remote-source syncs, device
//! logins): their snapshots, the transitions each job kind goes through,
//! and the registry that holds them by id.
use vstd::prelude::*;
use crate::json::JsonValue;
use crate::numfmt::{decimal, push_decimal};
use crate::text::{chars_eq, chars_of, push_str};
use crate::types::{JobItem, JobProgress, JobStatus};
use crate::errors::{http_error, opt_view, HttpError, HttpErrorEnvelope, STATUS_NOT_FOUND};

verus! {

/// Label of the library that skill installs write to.
pub const USER_GLOBAL_LIBRARY_LABEL: &'static str = "user_global";

/// An instant: seconds and nanoseconds since the Unix epoch.
#[derive(Debug, Clone, Copy, PartialEq, Eq, Structural)]
pub struct Timestamp {
    pub secs: i64,
    pub nanos: u32,
}

/// A job as clients see it, with its result document once it has one.
#[derive(Debug)]
pub struct JobSnapshot {
    pub id: String,
    pub kind: String,
    pub status: JobStatus,
    pub phase: String,
    pub progress: JobProgress,
    pub summary: String,
    pub items: Vec<JobItem>,
    pub result: Option<JsonValue>,
    pub error: Option<String>,
    pub created_at: Timestamp,
    pub updated_at: Timestamp,
}

pub struct ItemView {
    pub id: Seq<char>,
    pub status: JobStatus,
    pub summary: Seq<char>,
    pub error: Option<Seq<char>>,
}

pub struct JobView {
    pub id: Seq<char>,
    pub kind: Seq<char>,
    pub status: JobStatus,
    pub phase: Seq<char>,
    pub current: nat,
    pub total: nat,
    pub summary: Seq<char>,
    pub items: Seq<ItemView>,
    pub result: Option<JsonValue>,
    pub error: Option<Seq<char>>,
    pub created_at: Timestamp,
    pub updated_at: Timestamp,
}

pub open spec fn opt_chars(o: Option<String>) -> Option<Seq<char>> {
    match o {
        Some(s) => Some(s@),
        None => None,
    }
}

impl View for JobItem {
    type V = ItemView;

    open spec fn view(&self) -> ItemView {
        ItemView { id: self.id@, status: self.status, summary: self.summary@, error: opt_chars(self.error) }
    }
}

pub open spec fn item_views(items: Seq<JobItem>) -> Seq<ItemView> {
    items.map_values(|i: JobItem| i@)
}

impl View for JobSnapshot {
    type V = JobView;

    open spec fn view(&self) -> JobView {
        JobView {
            id: self.id@,
            kind: self.kind@,
            status: self.status,
            phase: self.phase@,
            current: self.progress.current as nat,
            total: self.progress.total as nat,
            summary: self.summary@,
            items: item_views(self.items@),
            result: self.result,
            error: opt_chars(self.error),
            created_at: self.created_at,
            updated_at: self.updated_at,
        }
    }
}

pub open spec fn item(id: Seq<char>, status: JobStatus, summary: Seq<char>, error: Option<Seq<char>>) -> ItemView {
    ItemView { id, status, summary, error }
}

/// A new job waiting to run.
pub open spec fn queued(id: Seq<char>, kind: Seq<char>, phase: Seq<char>, summary: Seq<char>, now: Timestamp) -> JobView {
    JobView {
        id,
        kind,
        status: JobStatus::Queued,
        phase,
        current: 0,
        total: 0,
        summary,
        items: Seq::empty(),
        result: None,
        error: None,
        created_at: now,
        updated_at: now,
    }
}

fn new_item(id: &str, status: JobStatus, summary: String, error: Option<String>) -> (r: JobItem)
    ensures
        r@ == item(id@, status, summary@, opt_chars(error)),
{
    JobItem { id: String::from_str(id), status, summary, error }
}

fn one_item(i: JobItem) -> (r: Vec<JobItem>)
    ensures
        item_views(r@) == seq![i@],
{
    let mut v: Vec<JobItem> = Vec::new();
    v.push(i);
    assert(item_views(v@) =~= seq![i@]);
    v
}

fn string_of(s: &str) -> (r: String)
    ensures
        r@ == s@,
{
    String::from_str(s)
}

/// A queued skill install job.
pub fn skill_install_job(id: String, now: Timestamp) -> (r: JobSnapshot)
    ensures
        r@ == queued(id@, "skill.install"@, "queued"@, "Queued skill install job"@, now),
{
    let r = JobSnapshot {
        id,
        kind: string_of("skill.install"),
        status: JobStatus::Queued,
        phase: string_of("queued"),
        progress: JobProgress { current: 0, total: 0 },
        summary: string_of("Queued skill install job"),
        items: Vec::new(),
        result: None,
        error: None,
        created_at: now,
        updated_at: now,
    };
    assert(item_views(r.items@) =~= Seq::empty());
    r
}

/// A queued agent template remote-source sync job.
pub fn template_remote_source_sync_job(id: String, now: Timestamp) -> (r: JobSnapshot)
    ensures
        r@ == queued(
            id@,
            "agent_template.remote_sources.sync"@,
            "queued"@,
            "Queued agent template remote source sync job"@,
            now,
        ),
{
    let r = JobSnapshot {
        id,
        kind: string_of("agent_template.remote_sources.sync"),
        status: JobStatus::Queued,
        phase: string_of("queued"),
        progress: JobProgress { current: 0, total: 0 },
        summary: string_of("Queued agent template remote source sync job"),
        items: Vec::new(),
        result: None,
        error: None,
        created_at: now,
        updated_at: now,
    };
    assert(item_views(r.items@) =~= Seq::empty());
    r
}

/// A device-login job waiting for the user to authorize the device code:
/// step 1 of 3.
pub open spec fn codex_login_queued(id: Seq<char>, now: Timestamp) -> JobView {
    JobView {
        current: 1,
        total: 3,
        items: seq![
            item(
                "device_authorization"@,
                JobStatus::Running,
                "Waiting for user to authorize the OpenAI Codex device code"@,
                None,
            ),
        ],
        ..queued(
            id,
            "auth.codex.device_login"@,
            "waiting_for_user"@,
            "Waiting for OpenAI Codex device authorization"@,
            now,
        )
    }
}

/// A queued OpenAI Codex device-login job.
pub fn codex_device_login_job(id: String, now: Timestamp) -> (r: JobSnapshot)
    ensures
        r@ == codex_login_queued(id@, now),
{
    let i = new_item(
        "device_authorization",
        JobStatus::Running,
        string_of("Waiting for user to authorize the OpenAI Codex device code"),
        None,
    );
    JobSnapshot {
        id,
        kind: string_of("auth.codex.device_login"),
        status: JobStatus::Queued,
        phase: string_of("waiting_for_user"),
        progress: JobProgress { current: 1, total: 3 },
        summary: string_of("Waiting for OpenAI Codex device authorization"),
        items: one_item(i),
        result: None,
        error: None,
        created_at: now,
        updated_at: now,
    }
}


// ------------------------------------------------------------ transitions

/// What a skill install installs.
#[derive(Debug, Clone)]
pub enum SkillInstallKind {
    Named { name: String },
    Local { path: String },
    Remote { package: String, skill: Option<String> },
}

/// The item summary of a skill install.
pub open spec fn skill_summary(kind: SkillInstallKind) -> Seq<char> {
    match kind {
        SkillInstallKind::Named { name } => "Install named skill "@ + name@,
        SkillInstallKind::Local { path } => "Install local skill "@ + path@,
        SkillInstallKind::Remote { package, skill } => match skill {
            Some(s) => "Install remote skill "@ + package@ + "@"@ + s@,
            None => "Install remote skill package "@ + package@,
        },
    }
}

/// The item summary of a skill install.
pub fn skill_install_summary(kind: &SkillInstallKind) -> (r: String)
    ensures
        r@ == skill_summary(*kind),
{
    match kind {
        SkillInstallKind::Named { name } => {
            let mut r = string_of("Install named skill ");
            push_str(&mut r, name.as_str());
            r
        },
        SkillInstallKind::Local { path } => {
            let mut r = string_of("Install local skill ");
            push_str(&mut r, path.as_str());
            r
        },
        SkillInstallKind::Remote { package, skill } => match skill {
            Some(s) => {
                let mut r = string_of("Install remote skill ");
                push_str(&mut r, package.as_str());
                push_str(&mut r, "@");
                push_str(&mut r, s.as_str());
                r
            },
            None => {
                let mut r = string_of("Install remote skill package ");
                push_str(&mut r, package.as_str());
                r
            },
        },
    }
}

/// Why a skill install job failed, with the error's text.
#[derive(Debug, Clone)]
pub enum SkillInstallFailure {
    QueueClosed(String),
    InstallFailed(String),
    WorkerFailed(String),
}

/// Why a remote-source sync failed before syncing any source.
#[derive(Debug, Clone)]
pub enum RemoteSyncSetupFailure {
    QueueClosed(String),
    HomeUnavailable(String),
}

/// Why a device login failed, with the error's text.
#[derive(Debug, Clone)]
pub enum CodexLoginFailure {
    LoginFailed(String),
    PersistFailed(String),
}

/// One step of a job's life.
#[derive(Debug)]
pub enum JobTransition {
    StartSkillInstall(SkillInstallKind),
    FailSkillInstall(SkillInstallFailure),
    CompleteSkillInstall { skill_name: String, result: JsonValue },
    FailMissingRemoteSource { source_id: String },
    StartRemoteSourceSync { source_ids: Vec<String> },
    FailRemoteSourceSync(RemoteSyncSetupFailure),
    RemoteSourceRunning { source_id: String },
    RemoteSourceSynced { source_id: String, completed: usize, failed: usize },
    RemoteSourceFailed { source_id: String, message: String, completed: usize, failed: usize },
    FinishRemoteSourceSync { completed: usize, failed: usize, result: JsonValue },
    StartCodexDeviceLogin,
    PersistCodexCredential,
    CompleteCodexDeviceLogin { result: JsonValue },
    FailCodexDeviceLogin(CodexLoginFailure),
}

/// Summary and error message of a failed skill install.
pub open spec fn skill_failure(f: SkillInstallFailure) -> (Seq<char>, Seq<char>) {
    match f {
        SkillInstallFailure::QueueClosed(e) => (
            "Skill install queue closed"@,
            "skill install queue closed: "@ + e@,
        ),
        SkillInstallFailure::InstallFailed(e) => ("Skill install failed"@, e@),
        SkillInstallFailure::WorkerFailed(e) => (
            "Skill install worker failed"@,
            "skill install worker failed: "@ + e@,
        ),
    }
}

/// Summary and error message of a sync that failed before it started.
pub open spec fn sync_setup_failure(f: RemoteSyncSetupFailure) -> (Seq<char>, Seq<char>) {
    match f {
        RemoteSyncSetupFailure::QueueClosed(e) => (
            "Remote source sync queue closed"@,
            "remote source sync queue closed: "@ + e@,
        ),
        RemoteSyncSetupFailure::HomeUnavailable(e) => ("Remote source sync failed"@, e@),
    }
}

/// Summary and error message of a failed device login.
pub open spec fn codex_failure(f: CodexLoginFailure) -> (Seq<char>, Seq<char>) {
    match f {
        CodexLoginFailure::LoginFailed(e) => ("OpenAI Codex device login failed"@, e@),
        CodexLoginFailure::PersistFailed(e) => ("OpenAI Codex credential persist failed"@, e@),
    }
}

/// Index of the first item with id `id`, or `-1`.
pub open spec fn first_item(items: Seq<ItemView>, id: Seq<char>) -> int
    decreases items.len(),
{
    if items.len() == 0 {
        -1
    } else if items[0].id == id {
        0
    } else {
        let r = first_item(items.drop_first(), id);
        if r < 0 {
            -1
        } else {
            r + 1
        }
    }
}

/// The items with the first one named `id` (if any) set to the given
/// status, summary and error.
pub open spec fn update_item(
    items: Seq<ItemView>,
    id: Seq<char>,
    status: JobStatus,
    summary: Seq<char>,
    error: Option<Seq<char>>,
) -> Seq<ItemView> {
    let k = first_item(items, id);
    if k >= 0 {
        items.update(k, ItemView { status, summary, error, ..items[k] })
    } else {
        items
    }
}

/// Every item failed with `message`, its summary kept.
pub open spec fn all_failed(items: Seq<ItemView>, message: Seq<char>) -> Seq<ItemView> {
    Seq::new(
        items.len(),
        |i: int| ItemView { status: JobStatus::Failed, error: Some(message), ..items[i] },
    )
}

/// The items of a sync that starts: one queued item per source.
pub open spec fn queued_sources(ids: Seq<String>) -> Seq<ItemView> {
    Seq::new(
        ids.len(),
        |i: int| item(ids[i]@, JobStatus::Queued, "Queued sync for "@ + ids[i]@, None),
    )
}

/// The summary of a finished sync.
pub open spec fn sync_summary(completed: nat, failed: nat) -> Seq<char> {
    if failed == 0 {
        "Synced "@ + decimal(completed) + " agent template remote source(s)"@
    } else {
        "Synced "@ + decimal(completed) + " agent template remote source(s), "@ + decimal(failed)
            + " failed"@
    }
}

/// A job after one step.
pub open spec fn after(j: JobView, t: JobTransition) -> JobView {
    match t {
        JobTransition::StartSkillInstall(kind) => JobView {
            status: JobStatus::Running,
            phase: "installing"@,
            summary: "Installing skill into the Global Skill Library"@,
            total: 1,
            items: seq![item("skill.install"@, JobStatus::Running, skill_summary(kind), None)],
            ..j
        },
        JobTransition::FailSkillInstall(f) => JobView {
            status: JobStatus::Failed,
            phase: "failed"@,
            current: 1,
            summary: skill_failure(f).0,
            error: Some(skill_failure(f).1),
            items: seq![
                item(
                    "skill.install"@,
                    JobStatus::Failed,
                    skill_failure(f).0,
                    Some(skill_failure(f).1),
                ),
            ],
            ..j
        },
        JobTransition::CompleteSkillInstall { skill_name, result } => JobView {
            status: JobStatus::Completed,
            phase: "completed"@,
            current: 1,
            summary: "Installed "@ + skill_name@ + " to the Global Skill Library"@,
            items: seq![
                item(skill_name@, JobStatus::Completed, "Installed "@ + skill_name@, None),
            ],
            result: Some(result),
            ..j
        },
        JobTransition::FailMissingRemoteSource { source_id } => {
            let m = "agent template remote source "@ + source_id@ + " was not found or is disabled"@;
            JobView {
                status: JobStatus::Failed,
                phase: "failed"@,
                summary: "Remote source sync failed"@,
                error: Some(m),
                items: seq![
                    item(
                        source_id@,
                        JobStatus::Failed,
                        "Remote source was not found or is disabled"@,
                        Some(m),
                    ),
                ],
                ..j
            }
        },
        JobTransition::StartRemoteSourceSync { source_ids } => JobView {
            status: JobStatus::Running,
            phase: "syncing"@,
            summary: "Synchronizing agent template remote sources"@,
            total: source_ids@.len(),
            items: queued_sources(source_ids@),
            ..j
        },
        JobTransition::FailRemoteSourceSync(f) => JobView {
            status: JobStatus::Failed,
            phase: "failed"@,
            summary: sync_setup_failure(f).0,
            error: Some(sync_setup_failure(f).1),
            items: all_failed(j.items, sync_setup_failure(f).1),
            ..j
        },
        JobTransition::RemoteSourceRunning { source_id } => JobView {
            items: update_item(j.items, source_id@, JobStatus::Running, "Syncing "@ + source_id@, None),
            ..j
        },
        JobTransition::RemoteSourceSynced { source_id, completed, failed } => JobView {
            current: (completed + failed) as nat,
            items: update_item(j.items, source_id@, JobStatus::Completed, "Synced "@ + source_id@, None),
            ..j
        },
        JobTransition::RemoteSourceFailed { source_id, message, completed, failed } => JobView {
            current: (completed + failed) as nat,
            items: update_item(
                j.items,
                source_id@,
                JobStatus::Failed,
                "Failed to sync "@ + source_id@,
                Some(message@),
            ),
            ..j
        },
        JobTransition::FinishRemoteSourceSync { completed, failed, result } => if failed == 0 {
            JobView {
                status: JobStatus::Completed,
                phase: "completed"@,
                summary: sync_summary(completed as nat, 0),
                result: Some(result),
                ..j
            }
        } else {
            JobView {
                status: JobStatus::Failed,
                phase: "failed"@,
                summary: sync_summary(completed as nat, failed as nat),
                error: Some(sync_summary(completed as nat, failed as nat)),
                result: Some(result),
                ..j
            }
        },
        JobTransition::StartCodexDeviceLogin => JobView { status: JobStatus::Running, ..j },
        JobTransition::PersistCodexCredential => JobView {
            phase: "persisting_credentials"@,
            current: 2,
            summary: "Persisting OpenAI Codex OAuth credential"@,
            items: seq![
                item(
                    "credential_profile"@,
                    JobStatus::Running,
                    "Writing openai-codex credential profile"@,
                    None,
                ),
            ],
            ..j
        },
        JobTransition::CompleteCodexDeviceLogin { result } => JobView {
            status: JobStatus::Completed,
            phase: "completed"@,
            current: 3,
            summary: "OpenAI Codex OAuth login completed"@,
            items: seq![
                item(
                    "credential_profile"@,
                    JobStatus::Completed,
                    "Configured openai-codex OAuth credential profile"@,
                    None,
                ),
            ],
            result: Some(result),
            ..j
        },
        JobTransition::FailCodexDeviceLogin(f) => JobView {
            status: JobStatus::Failed,
            phase: "failed"@,
            current: j.total,
            summary: codex_failure(f).0,
            error: Some(codex_failure(f).1),
            items: seq![
                item(
                    "auth.codex.device_login"@,
                    JobStatus::Failed,
                    codex_failure(f).0,
                    Some(codex_failure(f).1),
                ),
            ],
            ..j
        },
    }
}

/// Whether a step's counters fit the machine.
pub open spec fn transition_fits(t: JobTransition) -> bool {
    match t {
        JobTransition::RemoteSourceSynced { completed, failed, .. } => completed + failed <= usize::MAX,
        JobTransition::RemoteSourceFailed { completed, failed, .. } => completed + failed <= usize::MAX,
        _ => true,
    }
}


proof fn lemma_first_item(items: Seq<ItemView>, id: Seq<char>)
    ensures
        -1 <= first_item(items, id) < items.len(),
        first_item(items, id) >= 0 ==> items[first_item(items, id)].id == id,
        forall|j: int| 0 <= j < first_item(items, id) ==> #[trigger] items[j].id != id,
        first_item(items, id) == -1 ==> forall|j: int| 0 <= j < items.len() ==> #[trigger] items[j].id != id,
    decreases items.len(),
{
    if items.len() > 0 && items[0].id != id {
        let d = items.drop_first();
        lemma_first_item(d, id);
        assert forall|j: int| 0 <= j < first_item(items, id) implies #[trigger] items[j].id != id by {
            if j > 0 {
                assert(items[j] == d[j - 1]);
            }
        }
        if first_item(items, id) == -1 {
            assert forall|j: int| 0 <= j < items.len() implies #[trigger] items[j].id != id by {
                if j > 0 {
                    assert(items[j] == d[j - 1]);
                }
            }
        } else {
            assert(items[first_item(items, id)] == d[first_item(d, id)]);
        }
    }
}

/// Index of the first item named `id`.
fn find_first_item(items: &Vec<JobItem>, id: &str) -> (r: Option<usize>)
    ensures
        match r {
            Some(k) => k == first_item(item_views(items@), id@) && k < items@.len(),
            None => first_item(item_views(items@), id@) == -1,
        },
{
    let ghost s = item_views(items@);
    proof {
        lemma_first_item(s, id@);
    }
    let idv = chars_of(id);
    let mut i: usize = 0;
    while i < items.len()
        invariant
            i <= items@.len() == s.len(),
            s == item_views(items@),
            idv@ == id@,
            forall|j: int| 0 <= j < i ==> #[trigger] s[j].id != id@,
        decreases items.len() - i,
    {
        let v = chars_of(items[i].id.as_str());
        assert(s[i as int] == items@[i as int]@);
        if chars_eq(&v, &idv) {
            assert(s[i as int].id == id@);
            proof {
                lemma_first_item(s, id@);
                let f = first_item(s, id@);
                if f >= 0 && f < i {
                    assert(s[f].id != id@);
                }
            }
            return Some(i);
        }
        i = i + 1;
    }
    proof {
        let f = first_item(s, id@);
        if f >= 0 {
            assert(s[f].id != id@);
        }
    }
    None
}

/// Sets the first item named `id` (if any).
fn update_first_item(items: &mut Vec<JobItem>, id: &str, status: JobStatus, summary: String, error: Option<String>)
    ensures
        item_views(final(items)@) == update_item(
            item_views(old(items)@),
            id@,
            status,
            summary@,
            opt_chars(error),
        ),
{
    match find_first_item(items, id) {
        Some(k) => {
            let ghost before = item_views(items@);
            let item_id = items[k].id.clone();
            items.set(k, JobItem { id: item_id, status, summary, error });
            proof {
                assert(item_views(items@) =~= before.update(
                    k as int,
                    ItemView { status, summary: summary@, error: opt_chars(error), ..before[k as int] },
                ));
            }
        },
        None => {},
    }
}

/// Fails every item with `message`.
fn fail_all_items(items: &mut Vec<JobItem>, message: &String)
    ensures
        item_views(final(items)@) == all_failed(item_views(old(items)@), message@),
{
    let ghost s = item_views(items@);
    let mut i: usize = 0;
    while i < items.len()
        invariant
            i <= items@.len() == s.len(),
            s == item_views(old(items)@),
            forall|j: int| 0 <= j < i ==> #[trigger] item_views(items@)[j] == all_failed(s, message@)[j],
            forall|j: int| i <= j < s.len() ==> #[trigger] item_views(items@)[j] == s[j],
        decreases items.len() - i,
    {
        let item_id = items[i].id.clone();
        let item_summary = items[i].summary.clone();
        assert(s[i as int] == item_views(items@)[i as int]);
        let ghost before = items@;
        let new_item = JobItem {
            id: item_id,
            status: JobStatus::Failed,
            summary: item_summary,
            error: Some(message.clone()),
        };
        assert(new_item@ == all_failed(s, message@)[i as int]);
        items.set(i, new_item);
        assert(item_views(items@) =~= item_views(before).update(i as int, new_item@));
        i = i + 1;
    }
    assert(item_views(items@) =~= all_failed(s, message@));
}

/// One queued item per source.
fn queued_source_items(ids: &Vec<String>) -> (r: Vec<JobItem>)
    ensures
        item_views(r@) == queued_sources(ids@),
{
    let mut r: Vec<JobItem> = Vec::new();
    let mut i: usize = 0;
    while i < ids.len()
        invariant
            i <= ids@.len(),
            item_views(r@) =~= queued_sources(ids@).take(i as int),
        decreases ids.len() - i,
    {
        let mut summary = string_of("Queued sync for ");
        push_str(&mut summary, ids[i].as_str());
        let new_item = JobItem { id: ids[i].clone(), status: JobStatus::Queued, summary, error: None };
        assert(new_item@ == queued_sources(ids@)[i as int]);
        let ghost before = r@;
        r.push(new_item);
        assert(item_views(r@) =~= item_views(before).push(new_item@));
        i = i + 1;
        assert(item_views(r@) =~= queued_sources(ids@).take(i as int));
    }
    assert(queued_sources(ids@).take(ids@.len() as int) =~= queued_sources(ids@));
    r
}


fn prefixed(prefix: &str, text: &str) -> (r: String)
    ensures
        r@ == prefix@ + text@,
{
    let mut r = string_of(prefix);
    push_str(&mut r, text);
    r
}

fn skill_failure_parts(f: &SkillInstallFailure) -> (r: (String, String))
    ensures
        r.0@ == skill_failure(*f).0,
        r.1@ == skill_failure(*f).1,
{
    match f {
        SkillInstallFailure::QueueClosed(e) => (
            string_of("Skill install queue closed"),
            prefixed("skill install queue closed: ", e.as_str()),
        ),
        SkillInstallFailure::InstallFailed(e) => (string_of("Skill install failed"), e.clone()),
        SkillInstallFailure::WorkerFailed(e) => (
            string_of("Skill install worker failed"),
            prefixed("skill install worker failed: ", e.as_str()),
        ),
    }
}

fn sync_setup_failure_parts(f: &RemoteSyncSetupFailure) -> (r: (String, String))
    ensures
        r.0@ == sync_setup_failure(*f).0,
        r.1@ == sync_setup_failure(*f).1,
{
    match f {
        RemoteSyncSetupFailure::QueueClosed(e) => (
            string_of("Remote source sync queue closed"),
            prefixed("remote source sync queue closed: ", e.as_str()),
        ),
        RemoteSyncSetupFailure::HomeUnavailable(e) => (string_of("Remote source sync failed"), e.clone()),
    }
}

fn codex_failure_parts(f: &CodexLoginFailure) -> (r: (String, String))
    ensures
        r.0@ == codex_failure(*f).0,
        r.1@ == codex_failure(*f).1,
{
    match f {
        CodexLoginFailure::LoginFailed(e) => (string_of("OpenAI Codex device login failed"), e.clone()),
        CodexLoginFailure::PersistFailed(e) => (
            string_of("OpenAI Codex credential persist failed"),
            e.clone(),
        ),
    }
}

/// The summary of a finished remote-source sync.
pub fn remote_source_sync_summary(completed: usize, failed: usize) -> (r: String)
    ensures
        r@ == sync_summary(completed as nat, failed as nat),
{
    let mut r = string_of("Synced ");
    let ghost c = decimal(completed as nat);
    let ghost f = decimal(failed as nat);
    assert((completed as u64) as nat == completed as nat);
    assert((failed as u64) as nat == failed as nat);
    push_decimal(&mut r, completed as u64);
    push_str(&mut r, " agent template remote source(s)");
    assert(r@ =~= "Synced "@ + c + " agent template remote source(s)"@);
    if failed != 0 {
        push_str(&mut r, ", ");
        push_decimal(&mut r, failed as u64);
        push_str(&mut r, " failed");
        assert(r@ =~= "Synced "@ + c + " agent template remote source(s), "@ + f + " failed"@) by {
            reveal_strlit(" agent template remote source(s)");
            reveal_strlit(", ");
            reveal_strlit(" agent template remote source(s), ");
        }
    }
    r
}

/// Applies one step of a job's life to its snapshot.
pub fn apply_job_transition(job: &mut JobSnapshot, t: JobTransition)
    requires
        transition_fits(t),
    ensures
        final(job)@ == after(old(job)@, t),
{
    let ghost t0 = t;
    match t {
        JobTransition::StartSkillInstall(kind) => {
            job.status = JobStatus::Running;
            job.phase = string_of("installing");
            job.summary = string_of("Installing skill into the Global Skill Library");
            job.progress.total = 1;
            let summary = skill_install_summary(&kind);
            job.items = one_item(new_item("skill.install", JobStatus::Running, summary, None));
        },
        JobTransition::FailSkillInstall(f) => {
            let (summary, message) = skill_failure_parts(&f);
            job.status = JobStatus::Failed;
            job.phase = string_of("failed");
            job.progress.current = 1;
            job.summary = summary.clone();
            job.error = Some(message.clone());
            job.items = one_item(new_item("skill.install", JobStatus::Failed, summary, Some(message)));
        },
        JobTransition::CompleteSkillInstall { skill_name, result } => {
            job.status = JobStatus::Completed;
            job.phase = string_of("completed");
            job.progress.current = 1;
            let mut summary = prefixed("Installed ", skill_name.as_str());
            push_str(&mut summary, " to the Global Skill Library");
            job.summary = summary;
            let item_summary = prefixed("Installed ", skill_name.as_str());
            job.items = one_item(new_item(skill_name.as_str(), JobStatus::Completed, item_summary, None));
            job.result = Some(result);
        },
        JobTransition::FailMissingRemoteSource { source_id } => {
            let mut message = prefixed("agent template remote source ", source_id.as_str());
            push_str(&mut message, " was not found or is disabled");
            job.status = JobStatus::Failed;
            job.phase = string_of("failed");
            job.summary = string_of("Remote source sync failed");
            job.error = Some(message.clone());
            job.items = one_item(
                new_item(
                    source_id.as_str(),
                    JobStatus::Failed,
                    string_of("Remote source was not found or is disabled"),
                    Some(message),
                ),
            );
        },
        JobTransition::StartRemoteSourceSync { source_ids } => {
            job.status = JobStatus::Running;
            job.phase = string_of("syncing");
            job.summary = string_of("Synchronizing agent template remote sources");
            job.progress.total = source_ids.len();
            job.items = queued_source_items(&source_ids);
        },
        JobTransition::FailRemoteSourceSync(f) => {
            let (summary, message) = sync_setup_failure_parts(&f);
            job.status = JobStatus::Failed;
            job.phase = string_of("failed");
            job.summary = summary;
            fail_all_items(&mut job.items, &message);
            job.error = Some(message);
        },
        JobTransition::RemoteSourceRunning { source_id } => {
            let summary = prefixed("Syncing ", source_id.as_str());
            update_first_item(&mut job.items, source_id.as_str(), JobStatus::Running, summary, None);
        },
        JobTransition::RemoteSourceSynced { source_id, completed, failed } => {
            job.progress.current = completed + failed;
            let summary = prefixed("Synced ", source_id.as_str());
            update_first_item(&mut job.items, source_id.as_str(), JobStatus::Completed, summary, None);
        },
        JobTransition::RemoteSourceFailed { source_id, message, completed, failed } => {
            job.progress.current = completed + failed;
            let summary = prefixed("Failed to sync ", source_id.as_str());
            update_first_item(
                &mut job.items,
                source_id.as_str(),
                JobStatus::Failed,
                summary,
                Some(message),
            );
        },
        JobTransition::FinishRemoteSourceSync { completed, failed, result } => {
            let summary = remote_source_sync_summary(completed, failed);
            if failed == 0 {
                job.status = JobStatus::Completed;
                job.phase = string_of("completed");
                job.summary = summary;
            } else {
                job.status = JobStatus::Failed;
                job.phase = string_of("failed");
                job.summary = summary.clone();
                job.error = Some(summary);
            }
            job.result = Some(result);
        },
        JobTransition::StartCodexDeviceLogin => {
            job.status = JobStatus::Running;
        },
        JobTransition::PersistCodexCredential => {
            job.phase = string_of("persisting_credentials");
            job.progress.current = 2;
            job.summary = string_of("Persisting OpenAI Codex OAuth credential");
            job.items = one_item(
                new_item(
                    "credential_profile",
                    JobStatus::Running,
                    string_of("Writing openai-codex credential profile"),
                    None,
                ),
            );
        },
        JobTransition::CompleteCodexDeviceLogin { result } => {
            job.status = JobStatus::Completed;
            job.phase = string_of("completed");
            job.progress.current = 3;
            job.summary = string_of("OpenAI Codex OAuth login completed");
            job.items = one_item(
                new_item(
                    "credential_profile",
                    JobStatus::Completed,
                    string_of("Configured openai-codex OAuth credential profile"),
                    None,
                ),
            );
            job.result = Some(result);
        },
        JobTransition::FailCodexDeviceLogin(f) => {
            let (summary, message) = codex_failure_parts(&f);
            job.status = JobStatus::Failed;
            job.phase = string_of("failed");
            job.progress.current = job.progress.total;
            job.summary = summary.clone();
            job.error = Some(message.clone());
            job.items = one_item(
                new_item("auth.codex.device_login", JobStatus::Failed, summary, Some(message)),
            );
        },
    }
}


// --------------------------------------------------------------- registry

/// Index of the job with id `id`, or `-1`.
pub open spec fn job_index(jobs: Seq<JobView>, id: Seq<char>) -> int
    decreases jobs.len(),
{
    if jobs.len() == 0 {
        -1
    } else if jobs.last().id == id {
        jobs.len() - 1
    } else {
        job_index(jobs.drop_last(), id)
    }
}

/// The job with id `id`, if any.
pub open spec fn lookup(jobs: Seq<JobView>, id: Seq<char>) -> Option<JobView> {
    let i = job_index(jobs, id);
    if i >= 0 {
        Some(jobs[i])
    } else {
        None
    }
}

/// The jobs after storing `job`: it replaces the job with its id, or is
/// added.
pub open spec fn put(jobs: Seq<JobView>, job: JobView) -> Seq<JobView> {
    let i = job_index(jobs, job.id);
    if i >= 0 {
        jobs.update(i, job)
    } else {
        jobs.push(job)
    }
}

/// The jobs after the job with id `id` (if any) takes step `t` at `now`.
pub open spec fn bump(jobs: Seq<JobView>, id: Seq<char>, now: Timestamp, t: JobTransition) -> Seq<JobView> {
    let i = job_index(jobs, id);
    if i >= 0 {
        jobs.update(i, JobView { updated_at: now, ..after(jobs[i], t) })
    } else {
        jobs
    }
}

pub open spec fn ids_unique(jobs: Seq<JobView>) -> bool {
    forall|i: int, j: int| 0 <= i < j < jobs.len() ==> #[trigger] jobs[i].id != #[trigger] jobs[j].id
}

pub open spec fn job_views(jobs: Seq<JobSnapshot>) -> Seq<JobView> {
    jobs.map_values(|j: JobSnapshot| j@)
}

/// The jobs the server knows, by id.
pub struct JobRegistry {
    jobs: Vec<JobSnapshot>,
}

impl View for JobRegistry {
    type V = Seq<JobView>;

    closed spec fn view(&self) -> Seq<JobView> {
        job_views(self.jobs@)
    }
}

proof fn lemma_job_index(jobs: Seq<JobView>, id: Seq<char>)
    ensures
        -1 <= job_index(jobs, id) < jobs.len(),
        job_index(jobs, id) >= 0 ==> jobs[job_index(jobs, id)].id == id,
        job_index(jobs, id) == -1 ==> forall|j: int| 0 <= j < jobs.len() ==> #[trigger] jobs[j].id != id,
        forall|j: int| job_index(jobs, id) < j < jobs.len() ==> #[trigger] jobs[j].id != id,
    decreases jobs.len(),
{
    if jobs.len() > 0 && jobs.last().id != id {
        lemma_job_index(jobs.drop_last(), id);
        assert forall|j: int| job_index(jobs, id) < j < jobs.len() implies #[trigger] jobs[j].id != id by {
            if j < jobs.len() - 1 {
                assert(jobs[j] == jobs.drop_last()[j]);
            }
        }
        if job_index(jobs, id) == -1 {
            assert forall|j: int| 0 <= j < jobs.len() implies #[trigger] jobs[j].id != id by {
                if j < jobs.len() - 1 {
                    assert(jobs[j] == jobs.drop_last()[j]);
                }
            }
        }
    }
}

impl JobRegistry {
    /// Whether no two jobs share an id.
    pub closed spec fn wf(&self) -> bool {
        ids_unique(self@)
    }

    /// An empty registry.
    pub fn new() -> (r: Self)
        ensures
            r.wf(),
            r@.len() == 0,
    {
        let r = JobRegistry { jobs: Vec::new() };
        assert(job_views(r.jobs@) =~= Seq::empty());
        r
    }

    fn index_of(&self, id: &str) -> (r: Option<usize>)
        ensures
            match r {
                Some(i) => i < self.jobs@.len() && job_index(self@, id@) == i,
                None => job_index(self@, id@) == -1,
            },
    {
        let ghost s = self@;
        let idv = chars_of(id);
        let mut i = self.jobs.len();
        assert(s.take(i as int) =~= s);
        while i > 0
            invariant
                i <= self.jobs@.len() == s.len(),
                s == self@,
                idv@ == id@,
                job_index(s, id@) == job_index(s.take(i as int), id@),
            decreases i,
        {
            let v = chars_of(self.jobs[i - 1].id.as_str());
            assert(s[i - 1] == self.jobs@[i - 1]@);
            if chars_eq(&v, &idv) {
                return Some(i - 1);
            }
            assert(s.take(i as int).drop_last() =~= s.take(i - 1));
            i = i - 1;
        }
        None
    }

    /// Stores a job, replacing the job with the same id.
    pub fn insert(&mut self, job: JobSnapshot)
        requires
            old(self).wf(),
        ensures
            final(self).wf(),
            final(self)@ == put(old(self)@, job@),
    {
        let ghost s = self@;
        let ghost jv = job@;
        proof {
            lemma_job_index(s, jv.id);
        }
        match self.index_of(job.id.as_str()) {
            Some(i) => {
                self.jobs.set(i, job);
                proof {
                    assert(self@ =~= s.update(i as int, jv));
                    assert forall|a: int, b: int| 0 <= a < b < self@.len() implies #[trigger] self@[a].id
                        != #[trigger] self@[b].id by {
                        if a == i {
                            assert(s[a].id == jv.id);
                        }
                        if b == i {
                            assert(s[b].id == jv.id);
                        }
                    }
                }
            },
            None => {
                self.jobs.push(job);
                proof {
                    assert(self@ =~= s.push(jv));
                    assert forall|a: int, b: int| 0 <= a < b < self@.len() implies #[trigger] self@[a].id
                        != #[trigger] self@[b].id by {
                        if b == s.len() {
                            assert(self@[a] == s[a]);
                        }
                    }
                }
            },
        }
    }

    /// The job with id `id`.
    pub fn get(&self, id: &str) -> (r: Option<&JobSnapshot>)
        ensures
            match r {
                Some(j) => lookup(self@, id@) == Some(j@),
                None => lookup(self@, id@) is None,
            },
    {
        match self.index_of(id) {
            Some(i) => Some(&self.jobs[i]),
            None => None,
        }
    }

    /// Applies step `t` at `now` to the job with id `id`, if there is one.
    pub fn update(&mut self, id: &str, now: Timestamp, t: JobTransition)
        requires
            old(self).wf(),
            transition_fits(t),
        ensures
            final(self).wf(),
            final(self)@ == bump(old(self)@, id@, now, t),
    {
        let ghost s = self@;
        match self.index_of(id) {
            Some(i) => {
                proof {
                    lemma_job_index(s, id@);
                }
                let mut job = self.jobs.remove(i);
                let ghost mid = self.jobs@;
                apply_job_transition(&mut job, t);
                job.updated_at = now;
                self.jobs.insert(i, job);
                proof {
                    let nv = JobView { updated_at: now, ..after(s[i as int], t) };
                    assert(nv.id == s[i as int].id);
                    assert(self@ =~= s.update(i as int, nv));
                    assert forall|a: int, b: int| 0 <= a < b < self@.len() implies #[trigger] self@[a].id
                        != #[trigger] self@[b].id by {
                        assert(self@[a].id == s[a].id && self@[b].id == s[b].id);
                    }
                }
            },
            None => {},
        }
    }
}

/// What is read back is what was written: a stored job is found under its
/// id, and storing it leaves every other id's job as it was.
pub proof fn stored_job_is_read_back(jobs: Seq<JobView>, job: JobView, other: Seq<char>)
    requires
        ids_unique(jobs),
        other != job.id,
    ensures
        lookup(put(jobs, job), job.id) == Some(job),
        lookup(put(jobs, job), other) == lookup(jobs, other),
{
    lemma_job_index(jobs, job.id);
    lemma_job_index(jobs, other);
    let p = put(jobs, job);
    lemma_job_index(p, job.id);
    lemma_job_index(p, other);
    let i = job_index(jobs, job.id);
    if i >= 0 {
        assert(p[i].id == job.id);
        let k = job_index(p, job.id);
        if k != i {
            assert(p[k] == jobs[k]);
        }
        let o = job_index(jobs, other);
        let q = job_index(p, other);
        if o >= 0 {
            assert(p[o] == jobs[o]);
        }
        if q >= 0 {
            assert(p[q] == jobs[q]);
        }
    } else {
        assert(p.drop_last() =~= jobs);
    }
}

/// A step changes only the job it names: that job takes the step and is
/// stamped with its time; every other job is unchanged.
pub proof fn update_changes_only_its_job(
    jobs: Seq<JobView>,
    id: Seq<char>,
    now: Timestamp,
    t: JobTransition,
    other: Seq<char>,
)
    requires
        ids_unique(jobs),
        other != id,
    ensures
        lookup(bump(jobs, id, now, t), id) == match lookup(jobs, id) {
            Some(j) => Some(JobView { updated_at: now, ..after(j, t) }),
            None => None,
        },
        lookup(bump(jobs, id, now, t), other) == lookup(jobs, other),
{
    lemma_job_index(jobs, id);
    lemma_job_index(jobs, other);
    let b = bump(jobs, id, now, t);
    lemma_job_index(b, id);
    lemma_job_index(b, other);
    let i = job_index(jobs, id);
    if i >= 0 {
        let k = job_index(b, id);
        assert(b[i].id == id);
        if k != i {
            assert(b[k] == jobs[k]);
        }
        let o = job_index(jobs, other);
        let q = job_index(b, other);
        if o >= 0 {
            assert(b[o] == jobs[o]);
        }
        if q >= 0 {
            assert(b[q] == jobs[q]);
        }
    }
}


// ------------------------------------------------------ remote-source sync

/// A configured agent template remote source.
#[derive(Debug, Clone)]
pub struct RemoteSourceChoice {
    pub source_id: String,
    pub enabled: bool,
}

/// The sources a sync covers: the enabled ones, restricted to the
/// requested source when one is named, in configuration order.
pub open spec fn selected_sources(configured: Seq<RemoteSourceChoice>, requested: Option<Seq<char>>) -> Seq<Seq<char>>
    decreases configured.len(),
{
    if configured.len() == 0 {
        Seq::empty()
    } else {
        let rest = selected_sources(configured.drop_last(), requested);
        let c = configured.last();
        if c.enabled && (requested matches Some(r) ==> r == c.source_id@) {
            rest.push(c.source_id@)
        } else {
            rest
        }
    }
}

/// The ids of the sources a sync covers.
pub fn select_remote_sources(configured: &Vec<RemoteSourceChoice>, requested: Option<&str>) -> (r: Vec<String>)
    ensures
        r@.map_values(|s: String| s@) == selected_sources(
            configured@,
            match requested {
                Some(q) => Some(q@),
                None => None,
            },
        ),
{
    let ghost req = match requested {
        Some(q) => Some(q@),
        None => None,
    };
    let req_chars = match requested {
        Some(q) => Some(chars_of(q)),
        None => None,
    };
    let mut r: Vec<String> = Vec::new();
    let mut i: usize = 0;
    assert(configured@.take(0) =~= Seq::<RemoteSourceChoice>::empty());
    while i < configured.len()
        invariant
            i <= configured@.len(),
            req == match requested {
                Some(q) => Some(q@),
                None => None::<Seq<char>>,
            },
            match req_chars {
                Some(v) => req == Some(v@),
                None => req is None,
            },
            r@.map_values(|s: String| s@) == selected_sources(configured@.take(i as int), req),
        decreases configured.len() - i,
    {
        let c = &configured[i];
        assert(configured@.take(i + 1).drop_last() =~= configured@.take(i as int));
        assert(configured@.take(i + 1).last() == configured@[i as int]);
        let wanted = match &req_chars {
            Some(v) => {
                let sv = chars_of(c.source_id.as_str());
                chars_eq(v, &sv)
            },
            None => true,
        };
        let ghost before = r@;
        if c.enabled && wanted {
            r.push(c.source_id.clone());
            assert(r@.map_values(|s: String| s@) =~= before.map_values(|s: String| s@).push(
                c.source_id@,
            ));
        }
        i = i + 1;
    }
    assert(configured@.take(configured@.len() as int) =~= configured@);
    r
}

/// The error recorded for a source that failed to sync, noting when the
/// failure itself could not be persisted.
pub fn remote_source_failure_message(error: &str, record_error: Option<&str>) -> (r: String)
    ensures
        r@ == match record_error {
            Some(e) => error@ + "; additionally failed to persist sync failure: "@ + e@,
            None => error@,
        },
{
    let mut r = string_of(error);
    match record_error {
        Some(e) => {
            push_str(&mut r, "; additionally failed to persist sync failure: ");
            push_str(&mut r, e);
        },
        None => {},
    }
    r
}


/// `404` with code `job_not_found` for an unknown job id.
pub fn job_not_found(job_id: &str) -> (r: HttpError)
    ensures
        r.status == STATUS_NOT_FOUND,
        !r.envelope.ok,
        r.envelope.error@ == "job "@ + job_id@ + " was not found"@,
        opt_view(r.envelope.code) == Some("job_not_found"@),
        r.envelope.hint is None,
        r.envelope.extensions@.len() == 0,
{
    let mut message = string_of("job ");
    push_str(&mut message, job_id);
    push_str(&mut message, " was not found");
    http_error(STATUS_NOT_FOUND, HttpErrorEnvelope::new(message).code(string_of("job_not_found")))
}

// ------------------------------------------------------- result documents

/// The member `m` is named `key` and holds the text `text`.
pub open spec fn text_member(m: (String, JsonValue), key: Seq<char>, text: Seq<char>) -> bool {
    &&& m.0@ == key
    &&& m.1 matches JsonValue::Text(t) && t@ == text
}

/// The member `m` is named `key` and holds `v`.
pub open spec fn value_member(m: (String, JsonValue), key: Seq<char>, v: JsonValue) -> bool {
    m.0@ == key && m.1 == v
}

/// The member `m` is named `key` and holds the number `n`.
pub open spec fn number_member(m: (String, JsonValue), key: Seq<char>, n: nat) -> bool {
    &&& m.0@ == key
    &&& m.1 matches JsonValue::Number(t) && t@ == decimal(n)
}

/// The result document of an installed skill:
/// `{"library": "user_global", "skill_name": ..}` (members by name, as
/// `serde_json` orders them).
pub fn skill_install_result(skill_name: &str) -> (r: JsonValue)
    ensures
        r matches JsonValue::Object(m) && m@.len() == 2 && text_member(m@[0], "library"@, USER_GLOBAL_LIBRARY_LABEL@)
            && text_member(m@[1], "skill_name"@, skill_name@),
{
    let mut m: Vec<(String, JsonValue)> = Vec::new();
    m.push((String::from_str("library"), JsonValue::Text(String::from_str(USER_GLOBAL_LIBRARY_LABEL))));
    m.push((String::from_str("skill_name"), JsonValue::Text(String::from_str(skill_name))));
    JsonValue::Object(m)
}

fn number(n: usize) -> (r: JsonValue)
    ensures
        r matches JsonValue::Number(t) && t@ == decimal(n as nat),
{
    let mut t = String::new();
    push_decimal(&mut t, n as u64);
    JsonValue::Number(t)
}

/// The result document of a remote-source sync:
/// `{"completed": .., "failed": .., "sources": [..]}` with each synced
/// source's status document.
pub fn remote_sync_result(sources: Vec<JsonValue>, completed: usize, failed: usize) -> (r: JsonValue)
    ensures
        r matches JsonValue::Object(m) && {
            &&& m@.len() == 3
            &&& number_member(m@[0], "completed"@, completed as nat)
            &&& number_member(m@[1], "failed"@, failed as nat)
            &&& m@[2].0@ == "sources"@
            &&& m@[2].1 matches JsonValue::Array(a) && a@ == sources@
        },
{
    let mut m: Vec<(String, JsonValue)> = Vec::new();
    m.push((String::from_str("completed"), number(completed)));
    m.push((String::from_str("failed"), number(failed)));
    m.push((String::from_str("sources"), JsonValue::Array(sources)));
    JsonValue::Object(m)
}

/// The result document of a finished device login: `{"account_id": ..
/// (null when unknown), "auth_kind": .., "configured": true, "profile": ..,
/// "provider_id": ..}`, with the profile and credential kind as the
/// credential store reports them.
pub fn codex_login_result(provider_id: &str, profile: JsonValue, auth_kind: JsonValue, account_id: Option<String>) -> (r: JsonValue)
    ensures
        r matches JsonValue::Object(m) && m@.len() == 5 && m@[0].0@ == "account_id"@ && match account_id {
            Some(a) => m@[0].1 matches JsonValue::Text(t) && t@ == a@,
            None => m@[0].1 == JsonValue::Null,
        } && value_member(m@[1], "auth_kind"@, auth_kind) && value_member(m@[2], "configured"@, JsonValue::Bool(true))
            && value_member(m@[3], "profile"@, profile) && text_member(m@[4], "provider_id"@, provider_id@),
{
    let account = match account_id {
        Some(a) => JsonValue::Text(a),
        None => JsonValue::Null,
    };
    let mut m: Vec<(String, JsonValue)> = Vec::new();
    m.push((String::from_str("account_id"), account));
    m.push((String::from_str("auth_kind"), auth_kind));
    m.push((String::from_str("configured"), JsonValue::Bool(true)));
    m.push((String::from_str("profile"), profile));
    m.push((String::from_str("provider_id"), JsonValue::Text(String::from_str(provider_id))));
    JsonValue::Object(m)
}

} // verus!
