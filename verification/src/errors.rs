//! The JSON error envelope of the HTTP API and the classification of
//! runtime failures into HTTP statuses.
use vstd::prelude::*;
use crate::numfmt::{decimal, push_decimal};
use crate::text::{
    ascii_lower_chars, ascii_lower_seq, chars_of, has_prefix_str, has_suffix_str, push_str,
    string_from_chars, trim, trim_chars,
};

verus! {

pub const STATUS_BAD_REQUEST: u16 = 400;

pub const STATUS_UNAUTHORIZED: u16 = 401;

pub const STATUS_FORBIDDEN: u16 = 403;

pub const STATUS_NOT_FOUND: u16 = 404;

pub const STATUS_CONFLICT: u16 = 409;

pub const STATUS_PAYLOAD_TOO_LARGE: u16 = 413;

pub const STATUS_FAILED_DEPENDENCY: u16 = 424;

pub const STATUS_INTERNAL_SERVER_ERROR: u16 = 500;

pub const STATUS_BAD_GATEWAY: u16 = 502;

pub const STATUS_GATEWAY_TIMEOUT: u16 = 504;

pub const STATUS_SERVICE_UNAVAILABLE: u16 = 503;

/// A value carried by an error envelope extension field.
#[derive(Debug, Clone, PartialEq, Eq)]
pub enum ExtensionValue {
    Text(String),
    Unsigned(u64),
    OptionalUnsigned(Option<u64>),
    OptionalSigned(Option<i64>),
    Flag(bool),
}

/// The JSON error body: `{"ok": false, "error": ..., "code"?, "hint"?, ...extensions}`.
#[derive(Debug, Clone)]
pub struct HttpErrorEnvelope {
    pub ok: bool,
    pub error: String,
    pub code: Option<String>,
    pub hint: Option<String>,
    /// Extension fields in insertion order; a key occurs at most once.
    pub extensions: Vec<(String, ExtensionValue)>,
}

/// An HTTP status with its error envelope.
#[derive(Debug, Clone)]
pub struct HttpError {
    pub status: u16,
    pub envelope: HttpErrorEnvelope,
}

/// Whether no two extensions share a key.
pub open spec fn keys_unique(ext: Seq<(String, ExtensionValue)>) -> bool {
    forall|i: int, j: int| 0 <= i < j < ext.len() ==> #[trigger] ext[i].0@ != #[trigger] ext[j].0@
}

/// Index of the extension with key `key`, or `-1`.
pub open spec fn ext_index(ext: Seq<(String, ExtensionValue)>, key: Seq<char>) -> int
    decreases ext.len(),
{
    if ext.len() == 0 {
        -1
    } else if ext.last().0@ == key {
        ext.len() - 1
    } else {
        ext_index(ext.drop_last(), key)
    }
}

/// The extension list after setting `key` to `value` (replacing in place
/// when the key is present, appending otherwise).
pub open spec fn ext_insert(ext: Seq<(String, ExtensionValue)>, key: String, value: ExtensionValue) -> Seq<(String, ExtensionValue)> {
    let i = ext_index(ext, key@);
    if i >= 0 {
        ext.update(i, (key, value))
    } else {
        ext.push((key, value))
    }
}

/// The characters of an optional string.
pub open spec fn opt_view(o: Option<String>) -> Option<Seq<char>> {
    match o {
        Some(s) => Some(s@),
        None => None,
    }
}

/// The error with `status` whose envelope carries only `message`.
pub open spec fn plain_error(e: HttpError, status: u16, message: Seq<char>) -> bool {
    &&& e.status == status
    &&& !e.envelope.ok
    &&& e.envelope.error@ == message
    &&& e.envelope.code is None
    &&& e.envelope.hint is None
    &&& e.envelope.extensions@.len() == 0
}

impl HttpErrorEnvelope {
    /// An envelope with only the error message.
    pub fn new(error: String) -> (r: Self)
        ensures
            !r.ok,
            r.error@ == error@,
            r.code is None,
            r.hint is None,
            r.extensions@.len() == 0,
    {
        HttpErrorEnvelope { ok: false, error, code: None, hint: None, extensions: Vec::new() }
    }

    /// Sets the machine-readable error code.
    pub fn code(self, code: String) -> (r: Self)
        ensures
            r.ok == self.ok,
            r.error == self.error,
            r.code == Some(code),
            r.hint == self.hint,
            r.extensions@ == self.extensions@,
    {
        HttpErrorEnvelope { code: Some(code), ..self }
    }

    /// Sets the recovery hint.
    pub fn hint(self, hint: String) -> (r: Self)
        ensures
            r.ok == self.ok,
            r.error == self.error,
            r.code == self.code,
            r.hint == Some(hint),
            r.extensions@ == self.extensions@,
    {
        HttpErrorEnvelope { hint: Some(hint), ..self }
    }

    /// Sets the extension field `key` to `value`.
    pub fn extension(self, key: String, value: ExtensionValue) -> (r: Self)
        requires
            keys_unique(self.extensions@),
        ensures
            r.ok == self.ok,
            r.error == self.error,
            r.code == self.code,
            r.hint == self.hint,
            r.extensions@ == ext_insert(self.extensions@, key, value),
            keys_unique(r.extensions@),
    {
        let mut ext = self.extensions;
        let n = ext.len();
        let mut i = n;
        let kv = chars_of(key.as_str());
        let ghost e0 = ext@;
        assert(e0.take(n as int) =~= e0);
        while i > 0
            invariant
                i <= n == ext@.len(),
                ext@ == e0,
                e0 == self.extensions@,
                keys_unique(e0),
                ext_index(e0, key@) == ext_index(e0.take(i as int), key@),
                kv@ == key@,
            decreases i,
        {
            let kc = chars_of(ext[i - 1].0.as_str());
            if crate::text::chars_eq(&kc, &kv) {
                assert(e0.take(i as int).last() == e0[i - 1]);
                ext.set(i - 1, (key, value));
                proof {
                    assert(ext_index(e0, key@) == i - 1);
                    assert(ext@ == e0.update(i - 1, (key, value)));
                    assert(ext@ == ext_insert(e0, key, value));
                    assert forall|a: int, b: int| 0 <= a < b < ext@.len() implies #[trigger] ext@[a].0@
                        != #[trigger] ext@[b].0@ by {
                        assert(e0[i - 1].0@ == key@);
                        if a != i - 1 && b != i - 1 {
                            assert(ext@[a] == e0[a] && ext@[b] == e0[b]);
                        } else if a == i - 1 {
                            assert(e0[a].0@ != e0[b].0@);
                        } else {
                            assert(e0[a].0@ != e0[b].0@);
                        }
                    }
                }
                return HttpErrorEnvelope { extensions: ext, ..self };
            }
            assert(e0.take(i as int).drop_last() =~= e0.take(i - 1));
            i = i - 1;
        }
        proof {
            assert(e0.take(0) =~= Seq::<(String, ExtensionValue)>::empty());
            lemma_ext_index_absent(e0, key@);
        }
        ext.push((key, value));
        HttpErrorEnvelope { extensions: ext, ..self }
    }
}

pub proof fn lemma_ext_index_absent(ext: Seq<(String, ExtensionValue)>, key: Seq<char>)
    requires
        ext_index(ext, key) == -1,
    ensures
        forall|i: int| 0 <= i < ext.len() ==> #[trigger] ext[i].0@ != key,
    decreases ext.len(),
{
    if ext.len() > 0 {
        lemma_ext_index_absent(ext.drop_last(), key);
        assert forall|i: int| 0 <= i < ext.len() implies #[trigger] ext[i].0@ != key by {
            if i < ext.len() - 1 {
                assert(ext.drop_last()[i] == ext[i]);
            }
        }
    }
}

/// Pairs a status with an envelope.
pub fn http_error(status: u16, envelope: HttpErrorEnvelope) -> (r: HttpError)
    ensures
        r.status == status,
        r.envelope == envelope,
{
    HttpError { status, envelope }
}

/// `403 Forbidden` with `reason`.
pub fn forbidden(reason: String) -> (r: HttpError)
    ensures
        plain_error(r, STATUS_FORBIDDEN, reason@),
{
    http_error(STATUS_FORBIDDEN, HttpErrorEnvelope::new(reason))
}

/// `400 Bad Request` with `reason`.
pub fn bad_request(reason: String) -> (r: HttpError)
    ensures
        plain_error(r, STATUS_BAD_REQUEST, reason@),
{
    http_error(STATUS_BAD_REQUEST, HttpErrorEnvelope::new(reason))
}

/// `404 Not Found` with `reason`.
pub fn not_found(reason: String) -> (r: HttpError)
    ensures
        plain_error(r, STATUS_NOT_FOUND, reason@),
{
    http_error(STATUS_NOT_FOUND, HttpErrorEnvelope::new(reason))
}

/// `503 Service Unavailable` with `reason`.
pub fn service_unavailable(reason: String) -> (r: HttpError)
    ensures
        plain_error(r, STATUS_SERVICE_UNAVAILABLE, reason@),
{
    http_error(STATUS_SERVICE_UNAVAILABLE, HttpErrorEnvelope::new(reason))
}

/// `500 Internal Server Error` with the error's message.
pub fn error_response(message: String) -> (r: HttpError)
    ensures
        plain_error(r, STATUS_INTERNAL_SERVER_ERROR, message@),
{
    http_error(STATUS_INTERNAL_SERVER_ERROR, HttpErrorEnvelope::new(message))
}

/// The hint of `auth_required`.
pub open spec fn auth_hint() -> Seq<char> {
    "retry with an Authorization: Bearer <token> header"@
}

/// `401` with code `auth_required` and a hint to send a bearer token.
pub fn auth_required(reason: String) -> (r: HttpError)
    ensures
        r.status == STATUS_UNAUTHORIZED,
        !r.envelope.ok,
        r.envelope.error@ == reason@,
        opt_view(r.envelope.code) == Some("auth_required"@),
        opt_view(r.envelope.hint) == Some(auth_hint()),
        r.envelope.extensions@.len() == 0,
{
    http_error(
        STATUS_UNAUTHORIZED,
        HttpErrorEnvelope::new(reason).code(String::from_str("auth_required")).hint(
            String::from_str("retry with an Authorization: Bearer <token> header"),
        ),
    )
}

/// Whether `needle` occurs in `hay` at position `at`.
pub open spec fn occurs_at(hay: Seq<char>, needle: Seq<char>, at: int) -> bool {
    0 <= at && at + needle.len() <= hay.len() && hay.subrange(at, at + needle.len()) == needle
}

/// `str::contains` for a string needle.
pub open spec fn contains_seq(hay: Seq<char>, needle: Seq<char>) -> bool {
    exists|at: int| occurs_at(hay, needle, at)
}

/// `hay.contains(needle)` on characters.
pub fn contains_chars(hay: &Vec<char>, needle: &Vec<char>) -> (r: bool)
    ensures
        r == contains_seq(hay@, needle@),
{
    if needle.len() > hay.len() {
        proof {
            assert forall|at: int| !occurs_at(hay@, needle@, at) by {}
        }
        return false;
    }
    let last = hay.len() - needle.len();
    let mut at: usize = 0;
    loop
        invariant
            at <= last,
            last + needle@.len() == hay@.len(),
            hay@.len() == hay.len(),
            forall|a: int| 0 <= a < at ==> !occurs_at(hay@, needle@, a),
        decreases last - at,
    {
        let mut k: usize = 0;
        let mut same = true;
        while k < needle.len()
            invariant
                at <= last,
                last + needle@.len() == hay@.len(),
                hay@.len() == hay.len(),
                k <= needle@.len(),
                same == forall|j: int| 0 <= j < k ==> hay@[at + j] == needle@[j],
            decreases needle.len() - k,
        {
            if hay[at + k] != needle[k] {
                same = false;
            }
            k = k + 1;
        }
        if same {
            assert(hay@.subrange(at as int, at + needle@.len()) =~= needle@);
            assert(occurs_at(hay@, needle@, at as int));
            return true;
        }
        proof {
            if occurs_at(hay@, needle@, at as int) {
                let j = choose|j: int| 0 <= j < needle@.len() && hay@[at + j] != needle@[j];
                assert(hay@.subrange(at as int, at + needle@.len())[j] == hay@[at + j]);
            }
        }
        if at == last {
            return false;
        }
        at = at + 1;
    }
}

/// How a task lifecycle failure is answered.
pub open spec fn task_error_status(message: Seq<char>) -> u16 {
    if "task "@.is_prefix_of(message) && " not found"@.is_suffix_of(message) {
        STATUS_NOT_FOUND
    } else {
        STATUS_INTERNAL_SERVER_ERROR
    }
}

/// A task lifecycle failure: `task ... not found` is 404, anything else 500.
pub fn task_lifecycle_error(message: String) -> (r: HttpError)
    ensures
        plain_error(r, task_error_status(message@), message@),
{
    let m = chars_of(message.as_str());
    if has_prefix_str(&m, "task ") && has_suffix_str(&m, " not found") {
        not_found(message)
    } else {
        error_response(message)
    }
}

/// How a work item lifecycle failure is answered (case-insensitive match
/// on the not-found forms, `cannot ...` is a bad request).
pub open spec fn work_item_error_status(message: Seq<char>) -> u16 {
    let lower = ascii_lower_seq(message);
    if (contains_seq(lower, "work item"@) && "not found"@.is_suffix_of(lower))
        || "unknown work item "@.is_prefix_of(lower) {
        STATUS_NOT_FOUND
    } else if "cannot "@.is_prefix_of(message) {
        STATUS_BAD_REQUEST
    } else {
        STATUS_INTERNAL_SERVER_ERROR
    }
}

/// A work item lifecycle failure.
pub fn work_item_lifecycle_error(message: String) -> (r: HttpError)
    ensures
        plain_error(r, work_item_error_status(message@), message@),
{
    let m = chars_of(message.as_str());
    let lower = ascii_lower_chars(&m);
    let wi = chars_of("work item");
    if (contains_chars(&lower, &wi) && has_suffix_str(&lower, "not found")) || has_prefix_str(
        &lower,
        "unknown work item ",
    ) {
        not_found(message)
    } else if has_prefix_str(&m, "cannot ") {
        bad_request(message)
    } else {
        error_response(message)
    }
}

/// How a timer lifecycle failure is answered.
pub open spec fn timer_error_status(message: Seq<char>) -> u16 {
    if "timer "@.is_prefix_of(message) && " not found"@.is_suffix_of(message) {
        STATUS_NOT_FOUND
    } else if "cannot "@.is_prefix_of(message) {
        STATUS_BAD_REQUEST
    } else {
        STATUS_INTERNAL_SERVER_ERROR
    }
}

/// A timer lifecycle failure.
pub fn timer_lifecycle_error(message: String) -> (r: HttpError)
    ensures
        plain_error(r, timer_error_status(message@), message@),
{
    let m = chars_of(message.as_str());
    if has_prefix_str(&m, "timer ") && has_suffix_str(&m, " not found") {
        not_found(message)
    } else if has_prefix_str(&m, "cannot ") {
        bad_request(message)
    } else {
        error_response(message)
    }
}

/// The hint of `stopped_agent_conflict`.
pub open spec fn stopped_hint(agent_id: Seq<char>) -> Seq<char> {
    "start with `holon agent start "@ + agent_id + "` or POST /control/agents/"@ + agent_id
        + "/control with JSON body {\"action\":\"start\"}"@
}

/// `409` with code `agent_stopped`, a hint naming how to start the agent,
/// and the `agent_id` extension.
pub fn stopped_agent_conflict(reason: String, agent_id: String) -> (r: HttpError)
    ensures
        r.status == STATUS_CONFLICT,
        !r.envelope.ok,
        r.envelope.error@ == reason@,
        opt_view(r.envelope.code) == Some("agent_stopped"@),
        opt_view(r.envelope.hint) == Some(stopped_hint(agent_id@)),
        r.envelope.extensions@.len() == 1,
        r.envelope.extensions@[0].0@ == "agent_id"@,
        r.envelope.extensions@[0].1 == ExtensionValue::Text(agent_id),
{
    let mut hint = String::from_str("start with `holon agent start ");
    push_str(&mut hint, agent_id.as_str());
    push_str(&mut hint, "` or POST /control/agents/");
    push_str(&mut hint, agent_id.as_str());
    push_str(&mut hint, "/control with JSON body {\"action\":\"start\"}");
    let env = HttpErrorEnvelope::new(reason).code(String::from_str("agent_stopped")).hint(hint);
    let key = String::from_str("agent_id");
    let env = env.extension(key, ExtensionValue::Text(agent_id));
    proof {
        reveal_with_fuel(ext_index, 2);
    }
    http_error(STATUS_CONFLICT, env)
}

/// Why a public agent cannot be reached.
#[derive(Debug, Clone)]
pub enum PublicAgentError {
    Private { agent_id: String },
    NotFound { agent_id: String },
    Archived { agent_id: String },
    Stopped { agent_id: String },
    Runtime { message: String },
}

/// `format!("agent {agent_id}{suffix}")`.
pub open spec fn agent_message(agent_id: Seq<char>, suffix: Seq<char>) -> Seq<char> {
    "agent "@ + agent_id + suffix
}

fn agent_message_exec(agent_id: &String, suffix: &str) -> (r: String)
    ensures
        r@ == agent_message(agent_id@, suffix@),
{
    let mut m = String::from_str("agent ");
    push_str(&mut m, agent_id.as_str());
    push_str(&mut m, suffix);
    m
}

/// `r` answers the agent access failure `error`.
pub open spec fn is_agent_access_error(r: HttpError, error: PublicAgentError) -> bool {
    match error {
        PublicAgentError::Private { agent_id } => plain_error(
            r,
            STATUS_FORBIDDEN,
            agent_message(agent_id@, " is private"@),
        ),
        PublicAgentError::NotFound { agent_id } => plain_error(
            r,
            STATUS_NOT_FOUND,
            agent_message(agent_id@, " not found"@),
        ),
        PublicAgentError::Archived { agent_id } => plain_error(
            r,
            STATUS_NOT_FOUND,
            agent_message(agent_id@, " is archived"@),
        ),
        PublicAgentError::Stopped { agent_id } => {
            &&& r.status == STATUS_CONFLICT
            &&& r.envelope.error@ == agent_message(agent_id@, " is stopped; start first"@)
            &&& opt_view(r.envelope.code) == Some("agent_stopped"@)
            &&& opt_view(r.envelope.hint) == Some(stopped_hint(agent_id@))
        },
        PublicAgentError::Runtime { message } => plain_error(
            r,
            STATUS_INTERNAL_SERVER_ERROR,
            message@,
        ),
    }
}

/// Maps an agent access failure to its HTTP answer: private agents are
/// forbidden, unknown and archived ones are not found, stopped ones are a
/// conflict, runtime failures are internal errors.
pub fn agent_access_error(error: PublicAgentError) -> (r: HttpError)
    ensures
        is_agent_access_error(r, error),
{
    match error {
        PublicAgentError::Private { agent_id } => forbidden(
            agent_message_exec(&agent_id, " is private"),
        ),
        PublicAgentError::NotFound { agent_id } => not_found(
            agent_message_exec(&agent_id, " not found"),
        ),
        PublicAgentError::Archived { agent_id } => not_found(
            agent_message_exec(&agent_id, " is archived"),
        ),
        PublicAgentError::Stopped { agent_id } => {
            let reason = agent_message_exec(&agent_id, " is stopped; start first");
            stopped_agent_conflict(reason, agent_id)
        },
        PublicAgentError::Runtime { message } => error_response(message),
    }
}

/// The answer when a wake cannot reach its agent: a stopped agent is a
/// `409 agent_stopped` whose message says that a wake does not start it;
/// any other failure is answered as by `agent_access_error`.
pub fn wake_access_error(error: PublicAgentError) -> (r: HttpError)
    ensures
        match error {
            PublicAgentError::Stopped { agent_id } => {
                &&& r.status == STATUS_CONFLICT
                &&& !r.envelope.ok
                &&& r.envelope.error@ == agent_message(
                    agent_id@,
                    " is stopped; wake does not override stopped; start first"@,
                )
                &&& opt_view(r.envelope.code) == Some("agent_stopped"@)
                &&& opt_view(r.envelope.hint) == Some(stopped_hint(agent_id@))
                &&& r.envelope.extensions@.len() == 1
                &&& r.envelope.extensions@[0].0@ == "agent_id"@
                &&& r.envelope.extensions@[0].1 == ExtensionValue::Text(agent_id)
            },
            _ => is_agent_access_error(r, error),
        },
{
    match error {
        PublicAgentError::Stopped { agent_id } => {
            let m = agent_message_exec(&agent_id, " is stopped; wake does not override stopped; start first");
            stopped_agent_conflict(m, agent_id)
        },
        other => agent_access_error(other),
    }
}

/// `format!("{field} must not be empty")`.
pub open spec fn empty_field_message(field: Seq<char>) -> Seq<char> {
    field + " must not be empty"@
}

/// Returns `value` unchanged unless it is blank (only whitespace), which is
/// a bad request naming `field`.
pub fn require_non_empty(value: String, field: &str) -> (r: Result<String, HttpError>)
    ensures
        crate::text::trim(value@).len() == 0 <==> r is Err,
        r matches Ok(v) ==> v == value,
        r matches Err(e) ==> plain_error(e, STATUS_BAD_REQUEST, empty_field_message(field@)),
{
    let v = chars_of(value.as_str());
    let t = crate::text::trim_chars(&v);
    if t.len() == 0 {
        let mut m = String::from_str(field);
        push_str(&mut m, " must not be empty");
        return Err(bad_request(m));
    }
    Ok(value)
}

/// `format!("after_seq {after_seq} was not found in the replay window")`.
pub open spec fn cursor_not_found_message(after_seq: u64) -> Seq<char> {
    "after_seq "@ + decimal(after_seq as nat) + " was not found in the replay window"@
}

/// The replay window of an agent's event log at one committed read view.
#[derive(Debug, Clone)]
pub struct AgentEventRecoveryWindow {
    pub event_log_epoch: String,
    pub oldest_retained_seq: Option<u64>,
    pub event_head_seq: u64,
}

/// `e` is the `404` `cursor_not_found` error for `after_seq`, carrying the
/// replay window.
pub open spec fn is_cursor_not_found(r: HttpError, after_seq: u64, recovery_window: AgentEventRecoveryWindow) -> bool {
    &&& r.status == STATUS_NOT_FOUND
    &&& !r.envelope.ok
    &&& r.envelope.error@ == cursor_not_found_message(after_seq)
    &&& opt_view(r.envelope.code) == Some("cursor_not_found"@)
    &&& r.envelope.hint is None
    &&& r.envelope.extensions@.len() == 5
    &&& r.envelope.extensions@[0].0@ == "after_seq"@
    &&& r.envelope.extensions@[0].1 == ExtensionValue::Unsigned(after_seq)
    &&& r.envelope.extensions@[1].0@ == "event_seq"@
    &&& r.envelope.extensions@[1].1 == ExtensionValue::Unsigned(after_seq)
    &&& r.envelope.extensions@[2].0@ == "event_log_epoch"@
    &&& r.envelope.extensions@[2].1 == ExtensionValue::Text(recovery_window.event_log_epoch)
    &&& r.envelope.extensions@[3].0@ == "oldest_retained_seq"@
    &&& r.envelope.extensions@[3].1 == ExtensionValue::OptionalUnsigned(
        recovery_window.oldest_retained_seq,
    )
    &&& r.envelope.extensions@[4].0@ == "event_head_seq"@
    &&& r.envelope.extensions@[4].1 == ExtensionValue::Unsigned(recovery_window.event_head_seq)
}

/// `404` with code `cursor_not_found` for an `after_seq` outside the replay
/// window, carrying the window so clients can pick the reset path.
pub fn event_seq_not_found(after_seq: u64, recovery_window: &AgentEventRecoveryWindow) -> (r: HttpError)
    ensures
        is_cursor_not_found(r, after_seq, *recovery_window),
{
    let mut message = String::from_str("after_seq ");
    push_decimal(&mut message, after_seq);
    push_str(&mut message, " was not found in the replay window");
    let mut ext: Vec<(String, ExtensionValue)> = Vec::new();
    ext.push((String::from_str("after_seq"), ExtensionValue::Unsigned(after_seq)));
    ext.push((String::from_str("event_seq"), ExtensionValue::Unsigned(after_seq)));
    ext.push(
        (
            String::from_str("event_log_epoch"),
            ExtensionValue::Text(recovery_window.event_log_epoch.clone()),
        ),
    );
    ext.push(
        (
            String::from_str("oldest_retained_seq"),
            ExtensionValue::OptionalUnsigned(recovery_window.oldest_retained_seq),
        ),
    );
    ext.push(
        (
            String::from_str("event_head_seq"),
            ExtensionValue::Unsigned(recovery_window.event_head_seq),
        ),
    );
    let env = HttpErrorEnvelope {
        ok: false,
        error: message,
        code: Some(String::from_str("cursor_not_found")),
        hint: None,
        extensions: ext,
    };
    http_error(STATUS_NOT_FOUND, env)
}


// ------------------------------------------------------------ run aborts

/// Why aborting an agent's current run was refused.
#[derive(Debug, Clone, PartialEq, Eq)]
pub enum CurrentRunAbortError {
    /// The caller named a run that is no longer the current one.
    StaleRunId { requested_run_id: String, current_run_id: String },
    /// The agent has no run in progress.
    NoCurrentRun { agent_id: String },
}

/// The failure of an abort request: a refusal, or another error's message.
#[derive(Debug, Clone, PartialEq, Eq)]
pub enum RunAbortFailure {
    Refused(CurrentRunAbortError),
    Other(String),
}

/// The response to a failed abort: `409` with code `stale_run_id` or
/// `no_current_run` and the ids involved, `500` for anything else.
pub fn abort_error_response(error: RunAbortFailure) -> (r: HttpError)
    ensures
        !r.envelope.ok,
        r.envelope.hint is None,
        match error {
            RunAbortFailure::Refused(CurrentRunAbortError::StaleRunId { requested_run_id, current_run_id }) => {
                &&& r.status == STATUS_CONFLICT
                &&& r.envelope.error@ == "stale run_id "@ + requested_run_id@ + "; current run is "@
                    + current_run_id@
                &&& opt_view(r.envelope.code) == Some("stale_run_id"@)
                &&& r.envelope.extensions@.len() == 2
                &&& r.envelope.extensions@[0].0@ == "requested_run_id"@
                &&& r.envelope.extensions@[0].1 == ExtensionValue::Text(requested_run_id)
                &&& r.envelope.extensions@[1].0@ == "current_run_id"@
                &&& r.envelope.extensions@[1].1 == ExtensionValue::Text(current_run_id)
            },
            RunAbortFailure::Refused(CurrentRunAbortError::NoCurrentRun { agent_id }) => {
                &&& r.status == STATUS_CONFLICT
                &&& r.envelope.error@ == "agent "@ + agent_id@ + " has no current run to abort"@
                &&& opt_view(r.envelope.code) == Some("no_current_run"@)
                &&& r.envelope.extensions@.len() == 1
                &&& r.envelope.extensions@[0].0@ == "agent_id"@
                &&& r.envelope.extensions@[0].1 == ExtensionValue::Text(agent_id)
            },
            RunAbortFailure::Other(message) => plain_error(r, STATUS_INTERNAL_SERVER_ERROR, message@),
        },
{
    match error {
        RunAbortFailure::Refused(CurrentRunAbortError::StaleRunId { requested_run_id, current_run_id }) => {
            let mut message = String::from_str("stale run_id ");
            push_str(&mut message, requested_run_id.as_str());
            push_str(&mut message, "; current run is ");
            push_str(&mut message, current_run_id.as_str());
            let mut ext: Vec<(String, ExtensionValue)> = Vec::new();
            ext.push((String::from_str("requested_run_id"), ExtensionValue::Text(requested_run_id)));
            ext.push((String::from_str("current_run_id"), ExtensionValue::Text(current_run_id)));
            http_error(
                STATUS_CONFLICT,
                HttpErrorEnvelope {
                    ok: false,
                    error: message,
                    code: Some(String::from_str("stale_run_id")),
                    hint: None,
                    extensions: ext,
                },
            )
        },
        RunAbortFailure::Refused(CurrentRunAbortError::NoCurrentRun { agent_id }) => {
            let mut message = String::from_str("agent ");
            push_str(&mut message, agent_id.as_str());
            push_str(&mut message, " has no current run to abort");
            let mut ext: Vec<(String, ExtensionValue)> = Vec::new();
            ext.push((String::from_str("agent_id"), ExtensionValue::Text(agent_id)));
            http_error(
                STATUS_CONFLICT,
                HttpErrorEnvelope {
                    ok: false,
                    error: message,
                    code: Some(String::from_str("no_current_run")),
                    hint: None,
                    extensions: ext,
                },
            )
        },
        RunAbortFailure::Other(message) => error_response(message),
    }
}

/// A `blocked_by` field of a work-item mutation, as JSON gave it.
#[derive(Debug, Clone, PartialEq, Eq)]
pub enum BlockedByValue {
    Null,
    Text(String),
    /// Any other JSON value.
    Other,
}

/// `blocked_by` of a mutation: `null` clears it, a string sets it (trimmed;
/// blank clears it), anything else is refused with `400`.
pub fn parse_blocked_by_mutation(value: BlockedByValue) -> (r: Result<Option<String>, HttpError>)
    ensures
        match value {
            BlockedByValue::Null => r matches Ok(None),
            BlockedByValue::Text(s) => r matches Ok(o) && (if trim(s@).len() == 0 {
                o is None
            } else {
                o matches Some(t) && t@ == trim(s@)
            }),
            BlockedByValue::Other => r matches Err(e) && plain_error(
                e,
                STATUS_BAD_REQUEST,
                "blocked_by must be a string or null"@,
            ),
        },
{
    match value {
        BlockedByValue::Null => Ok(None),
        BlockedByValue::Text(inner) => {
            let v = chars_of(inner.as_str());
            let t = trim_chars(&v);
            if t.len() == 0 {
                Ok(None)
            } else {
                Ok(Some(string_from_chars(&t)))
            }
        },
        BlockedByValue::Other => Err(bad_request(String::from_str("blocked_by must be a string or null"))),
    }
}

/// `400` with code `template_install_failed` for a failed template install.
pub fn template_install_error_response(message: String) -> (r: HttpError)
    ensures
        r.status == STATUS_BAD_REQUEST,
        !r.envelope.ok,
        r.envelope.error@ == message@,
        opt_view(r.envelope.code) == Some("template_install_failed"@),
        r.envelope.hint is None,
        r.envelope.extensions@.len() == 0,
{
    http_error(STATUS_BAD_REQUEST, HttpErrorEnvelope::new(message).code(String::from_str("template_install_failed")))
}

// ------------------------------------------------------- skill installs

/// Why installing a skill failed; each refusal carries its display text.
#[derive(Debug, Clone, PartialEq, Eq)]
pub enum SkillInstallFailure {
    /// A skill of that name is installed already.
    AlreadyInstalled { message: String, skill_name: String, destination: String },
    /// The package manager that installs remote skills is missing.
    ManagerUnavailable { message: String, manager: String },
    /// The remote install ran and failed.
    RemoteInstallFailed {
        message: String,
        package: String,
        exit_status: Option<i64>,
        stdout: String,
        stderr: String,
    },
    /// The remote install outlived its time budget.
    RemoteInstallTimedOut { message: String, package: String, timeout_secs: u64 },
    /// Any other error's message.
    Other(String),
}

/// The hint of `skill_manager_unavailable`.
pub open spec fn skill_manager_hint() -> Seq<char> {
    "Install Node.js/npm so `npx skills` is available, or install the skill manually into ~/.agents/skills and link it by name."@
}

/// The extension `x` is `key` with the value `v`.
pub open spec fn ext_is(x: (String, ExtensionValue), key: Seq<char>, v: ExtensionValue) -> bool {
    x.0@ == key && x.1 == v
}

/// The response to a failed skill install: `409 skill_already_installed`,
/// `424 skill_manager_unavailable`, `502 remote_skill_install_failed` or
/// `504 remote_skill_install_timeout` with their details, `500` otherwise.
pub fn skill_install_error_response(failure: SkillInstallFailure) -> (r: HttpError)
    ensures
        !r.envelope.ok,
        match failure {
            SkillInstallFailure::AlreadyInstalled { message, skill_name, destination } => {
                &&& r.status == STATUS_CONFLICT
                &&& r.envelope.error@ == message@
                &&& opt_view(r.envelope.code) == Some("skill_already_installed"@)
                &&& opt_view(r.envelope.hint) == Some(
                    "uninstall the existing skill first or choose a different skill name"@,
                )
                &&& r.envelope.extensions@.len() == 2
                &&& ext_is(r.envelope.extensions@[0], "skill_name"@, ExtensionValue::Text(skill_name))
                &&& ext_is(r.envelope.extensions@[1], "destination"@, ExtensionValue::Text(destination))
            },
            SkillInstallFailure::ManagerUnavailable { message, manager } => {
                &&& r.status == STATUS_FAILED_DEPENDENCY
                &&& r.envelope.error@ == message@
                &&& opt_view(r.envelope.code) == Some("skill_manager_unavailable"@)
                &&& opt_view(r.envelope.hint) == Some(skill_manager_hint())
                &&& r.envelope.extensions@.len() == 1
                &&& ext_is(r.envelope.extensions@[0], "manager"@, ExtensionValue::Text(manager))
            },
            SkillInstallFailure::RemoteInstallFailed { message, package, exit_status, stdout, stderr } => {
                &&& r.status == STATUS_BAD_GATEWAY
                &&& r.envelope.error@ == message@
                &&& opt_view(r.envelope.code) == Some("remote_skill_install_failed"@)
                &&& r.envelope.hint is None
                &&& r.envelope.extensions@.len() == 4
                &&& ext_is(r.envelope.extensions@[0], "package"@, ExtensionValue::Text(package))
                &&& ext_is(r.envelope.extensions@[1], "exit_status"@, ExtensionValue::OptionalSigned(exit_status))
                &&& ext_is(r.envelope.extensions@[2], "stdout"@, ExtensionValue::Text(stdout))
                &&& ext_is(r.envelope.extensions@[3], "stderr"@, ExtensionValue::Text(stderr))
            },
            SkillInstallFailure::RemoteInstallTimedOut { message, package, timeout_secs } => {
                &&& r.status == STATUS_GATEWAY_TIMEOUT
                &&& r.envelope.error@ == message@
                &&& opt_view(r.envelope.code) == Some("remote_skill_install_timeout"@)
                &&& r.envelope.hint is None
                &&& r.envelope.extensions@.len() == 2
                &&& ext_is(r.envelope.extensions@[0], "package"@, ExtensionValue::Text(package))
                &&& ext_is(r.envelope.extensions@[1], "timeout_seconds"@, ExtensionValue::Unsigned(timeout_secs))
            },
            SkillInstallFailure::Other(message) => plain_error(r, STATUS_INTERNAL_SERVER_ERROR, message@),
        },
{
    match failure {
        SkillInstallFailure::AlreadyInstalled { message, skill_name, destination } => {
            let mut ext: Vec<(String, ExtensionValue)> = Vec::new();
            ext.push((String::from_str("skill_name"), ExtensionValue::Text(skill_name)));
            ext.push((String::from_str("destination"), ExtensionValue::Text(destination)));
            http_error(
                STATUS_CONFLICT,
                HttpErrorEnvelope {
                    ok: false,
                    error: message,
                    code: Some(String::from_str("skill_already_installed")),
                    hint: Some(String::from_str("uninstall the existing skill first or choose a different skill name")),
                    extensions: ext,
                },
            )
        },
        SkillInstallFailure::ManagerUnavailable { message, manager } => {
            let mut ext: Vec<(String, ExtensionValue)> = Vec::new();
            ext.push((String::from_str("manager"), ExtensionValue::Text(manager)));
            http_error(
                STATUS_FAILED_DEPENDENCY,
                HttpErrorEnvelope {
                    ok: false,
                    error: message,
                    code: Some(String::from_str("skill_manager_unavailable")),
                    hint: Some(
                        String::from_str(
                            "Install Node.js/npm so `npx skills` is available, or install the skill manually into ~/.agents/skills and link it by name.",
                        ),
                    ),
                    extensions: ext,
                },
            )
        },
        SkillInstallFailure::RemoteInstallFailed { message, package, exit_status, stdout, stderr } => {
            let mut ext: Vec<(String, ExtensionValue)> = Vec::new();
            ext.push((String::from_str("package"), ExtensionValue::Text(package)));
            ext.push((String::from_str("exit_status"), ExtensionValue::OptionalSigned(exit_status)));
            ext.push((String::from_str("stdout"), ExtensionValue::Text(stdout)));
            ext.push((String::from_str("stderr"), ExtensionValue::Text(stderr)));
            http_error(
                STATUS_BAD_GATEWAY,
                HttpErrorEnvelope {
                    ok: false,
                    error: message,
                    code: Some(String::from_str("remote_skill_install_failed")),
                    hint: None,
                    extensions: ext,
                },
            )
        },
        SkillInstallFailure::RemoteInstallTimedOut { message, package, timeout_secs } => {
            let mut ext: Vec<(String, ExtensionValue)> = Vec::new();
            ext.push((String::from_str("package"), ExtensionValue::Text(package)));
            ext.push((String::from_str("timeout_seconds"), ExtensionValue::Unsigned(timeout_secs)));
            http_error(
                STATUS_GATEWAY_TIMEOUT,
                HttpErrorEnvelope {
                    ok: false,
                    error: message,
                    code: Some(String::from_str("remote_skill_install_timeout")),
                    hint: None,
                    extensions: ext,
                },
            )
        },
        SkillInstallFailure::Other(message) => error_response(message),
    }
}

} // verus!
