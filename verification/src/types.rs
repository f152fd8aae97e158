//! Request and response bodies of the agent and control HTTP API.
use vstd::prelude::*;

verus! {

pub const SEARCH_DEFAULT_LIMIT: usize = 20;

pub const SEARCH_MAX_LIMIT: usize = 50;

pub const TASK_OUTPUT_DEFAULT_TIMEOUT_MS: u64 = 30000;

/// Who an instruction speaks for.
#[derive(Debug, Clone, Copy, PartialEq, Eq, Structural)]
pub enum AuthorityClass {
    OperatorInstruction,
    IntegrationSignal,
    RuntimeInstruction,
}

/// The origin a caller claims for an enqueued message.
#[derive(Debug, Clone, PartialEq, Eq)]
pub enum IncomingOrigin {
    Operator { actor_id: Option<String> },
    Channel { channel_id: String, sender_id: Option<String> },
    Webhook { source: String, event_type: Option<String> },
    Timer { timer_id: String },
    System { subsystem: String },
    Task { task_id: String },
}

/// The origin recorded on a runtime message.
#[derive(Debug, Clone, PartialEq, Eq)]
pub enum MessageOrigin {
    Operator { actor_id: Option<String> },
    Channel { channel_id: String, sender_id: Option<String> },
    Webhook { source: String, event_type: Option<String> },
    Timer { timer_id: String },
    System { subsystem: String },
    Task { task_id: String },
}

/// Converts a claimed origin into the runtime origin, field for field.
pub fn into_origin(origin: IncomingOrigin) -> (r: MessageOrigin)
    ensures
        match origin {
            IncomingOrigin::Operator { actor_id } => r == MessageOrigin::Operator { actor_id },
            IncomingOrigin::Channel { channel_id, sender_id } => r == MessageOrigin::Channel {
                channel_id,
                sender_id,
            },
            IncomingOrigin::Webhook { source, event_type } => r == MessageOrigin::Webhook {
                source,
                event_type,
            },
            IncomingOrigin::Timer { timer_id } => r == MessageOrigin::Timer { timer_id },
            IncomingOrigin::System { subsystem } => r == MessageOrigin::System { subsystem },
            IncomingOrigin::Task { task_id } => r == MessageOrigin::Task { task_id },
        },
{
    match origin {
        IncomingOrigin::Operator { actor_id } => MessageOrigin::Operator { actor_id },
        IncomingOrigin::Channel { channel_id, sender_id } => MessageOrigin::Channel {
            channel_id,
            sender_id,
        },
        IncomingOrigin::Webhook { source, event_type } => MessageOrigin::Webhook {
            source,
            event_type,
        },
        IncomingOrigin::Timer { timer_id } => MessageOrigin::Timer { timer_id },
        IncomingOrigin::System { subsystem } => MessageOrigin::System { subsystem },
        IncomingOrigin::Task { task_id } => MessageOrigin::Task { task_id },
    }
}

#[derive(Debug, Clone)]
pub struct SearchRequest {
    pub query: String,
    pub limit: Option<usize>,
    pub include_all_workspaces: bool,
    pub agent_ids: Option<Vec<String>>,
    pub types: Vec<String>,
}

#[derive(Debug, Clone)]
pub struct RenameAgentRequest {
    pub name: String,
}

#[derive(Debug, Clone, Copy, PartialEq, Eq, Structural, Default)]
pub struct DeleteAgentRequest {
    pub cascade_private_children: bool,
}

#[derive(Debug, Clone)]
pub struct MemoryGetRequest {
    pub source_ref: String,
    pub max_chars: Option<usize>,
}

#[derive(Debug, Clone)]
pub struct ControlWakeRequest {
    pub reason: String,
    pub source: Option<String>,
    pub correlation_id: Option<String>,
    pub causation_id: Option<String>,
}

#[derive(Debug, Clone)]
pub struct ControlPromptRequest {
    pub text: String,
    pub work_item_id: Option<String>,
    pub attachments: Vec<ControlPromptAttachment>,
    /// Stable caller-generated identity used to safely retry a prompt after
    /// the client loses the HTTP response. Older clients may omit it.
    pub client_request_id: Option<String>,
}

#[derive(Debug, Clone)]
pub enum ControlPromptAttachment {
    Image(ControlPromptImageAttachment),
    File(ControlPromptFileAttachment),
}

#[derive(Debug, Clone)]
pub struct ControlPromptImageAttachment {
    pub name: Option<String>,
    pub media_type: String,
    pub data_base64: String,
}

#[derive(Debug, Clone)]
pub struct ControlPromptFileAttachment {
    pub name: Option<String>,
    pub media_type: String,
    pub data_base64: String,
}

#[derive(Debug, Clone)]
pub struct DebugPromptRequest {
    pub text: String,
    pub authority_class: Option<AuthorityClass>,
    pub manifest: Option<bool>,
    pub budget: Option<usize>,
}

#[derive(Debug, Clone, Copy)]
pub struct LimitQuery {
    pub limit: Option<usize>,
}

#[derive(Debug, Clone, Copy)]
pub struct TaskOutputQuery {
    pub block: Option<bool>,
    pub timeout_ms: Option<u64>,
}

#[derive(Debug, Clone)]
pub struct TaskInputRequest {
    pub text: String,
    pub authority_class: Option<AuthorityClass>,
}

#[derive(Debug, Clone, Copy)]
pub struct TaskStopRequest {
    pub authority_class: Option<AuthorityClass>,
}

/// Order of an event page.
#[derive(Debug, Clone, Copy, PartialEq, Eq, Structural)]
pub enum EventPageOrder {
    Asc,
    Desc,
}

#[derive(Debug, Clone, Copy)]
pub struct EventStreamQuery {
    pub after_seq: Option<u64>,
    pub limit: Option<usize>,
}

#[derive(Debug, Clone)]
pub struct BatchGetMessagesRequest {
    pub message_ids: Vec<String>,
}

#[derive(Debug, Clone)]
pub struct BatchGetBriefsRequest {
    pub brief_ids: Vec<String>,
}

#[derive(Debug, Clone)]
pub struct BatchGetTranscriptEntriesRequest {
    pub entry_ids: Vec<String>,
}

#[derive(Debug, Clone)]
pub struct CreateCommandTaskRequest {
    pub summary: String,
    pub cmd: String,
    pub workdir: Option<String>,
    pub shell: Option<String>,
    pub login: Option<bool>,
    pub tty: Option<bool>,
    pub yield_time_ms: Option<u64>,
    pub max_output_tokens: Option<u64>,
    pub accepts_input: Option<bool>,
    pub authority_class: Option<AuthorityClass>,
}

#[derive(Debug, Clone)]
pub struct CreateWorkItemRequest {
    pub objective: String,
    pub authority_class: Option<AuthorityClass>,
}

#[derive(Debug, Clone)]
pub struct PickWorkItemRequest {
    pub reason: Option<String>,
    pub clear_blocker: bool,
    pub authority_class: Option<AuthorityClass>,
}

#[derive(Debug, Clone)]
pub struct CompleteWorkItemRequest {
    pub report_text: String,
    pub authority_class: Option<AuthorityClass>,
}

#[derive(Debug, Clone)]
pub struct CreateTimerRequest {
    pub duration_ms: u64,
    pub interval_ms: Option<u64>,
    pub summary: Option<String>,
    pub authority_class: Option<AuthorityClass>,
}

#[derive(Debug, Clone, Copy)]
pub struct CancelTimerRequest {
    pub authority_class: Option<AuthorityClass>,
}

#[derive(Debug, Clone)]
pub struct AbortCurrentRunRequest {
    pub run_id: Option<String>,
    pub mode: Option<String>,
    pub authority_class: Option<AuthorityClass>,
}

#[derive(Debug, Clone)]
pub struct AttachWorkspaceRequest {
    pub path: String,
    pub authority_class: Option<AuthorityClass>,
}

#[derive(Debug, Clone, Copy)]
pub struct ExitWorkspaceRequest {
    pub authority_class: Option<AuthorityClass>,
}

#[derive(Debug, Clone)]
pub struct DetachWorkspaceRequest {
    pub workspace_id: String,
    pub authority_class: Option<AuthorityClass>,
}

#[derive(Debug, Clone)]
pub struct SetAgentModelRequest {
    pub model: String,
    pub reasoning_effort: Option<String>,
    pub authority_class: Option<AuthorityClass>,
}

#[derive(Debug, Clone, Copy)]
pub struct ClearAgentModelRequest {
    pub authority_class: Option<AuthorityClass>,
}

#[derive(Debug, Clone)]
pub struct CreateAgentRequest {
    pub authority_class: Option<AuthorityClass>,
    pub template: Option<String>,
    pub name: Option<String>,
}

#[derive(Debug, Clone)]
pub struct OidcCallbackQuery {
    pub state: String,
    pub code: String,
}

#[derive(Debug, Clone)]
pub struct SessionExchangeRequest {
    pub credential: String,
}

#[derive(Debug, Clone)]
pub struct SetCredentialRequest {
    pub kind: String,
    pub material: String,
}

#[derive(Debug, Clone)]
pub struct ToolExecutionArtifactContent {
    pub artifact_index: usize,
    pub size: u64,
    pub content: String,
}

/// State of a background job or of one of its items.
#[derive(Debug, Clone, Copy, PartialEq, Eq, Structural)]
pub enum JobStatus {
    Queued,
    Running,
    Completed,
    Failed,
}

#[derive(Debug, Clone, Copy, Default)]
pub struct JobProgress {
    pub current: usize,
    pub total: usize,
}

#[derive(Debug, Clone)]
pub struct JobItem {
    pub id: String,
    pub status: JobStatus,
    pub summary: String,
    pub error: Option<String>,
}

} // verus!
