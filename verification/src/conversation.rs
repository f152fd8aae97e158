//! How conversation snapshot reads and change streams report failures:
//! the HTTP error of a failed read, and the `reset_required` stream message
//! that tells a client to bootstrap a fresh snapshot.
use vstd::prelude::*;
use crate::errors::{
    http_error, opt_view, ExtensionValue, HttpError, HttpErrorEnvelope, STATUS_BAD_REQUEST,
    STATUS_CONFLICT, STATUS_INTERNAL_SERVER_ERROR, STATUS_NOT_FOUND, STATUS_PAYLOAD_TOO_LARGE,
    STATUS_SERVICE_UNAVAILABLE,
};
use crate::numfmt::{decimal, push_decimal};
use crate::text::push_str;

verus! {

// ------------------------------------------------------------- the model

/// Why the event log can no longer serve a cursor.
#[derive(Debug, Clone, Copy, PartialEq, Eq, Structural)]
pub enum ConversationResetReason {
    RetentionExpired,
    CursorAhead,
    ReplayLimitExceeded,
}

/// The reason a change stream tells its client to reset.
#[derive(Debug, Clone, Copy, PartialEq, Eq, Structural)]
pub enum ConversationStreamResetReason {
    RetentionExpired,
    CursorAhead,
    ReplayLimitExceeded,
    SchemaVersionMismatch,
    QueryVersionMismatch,
    EventLogEpochMismatch,
    CursorRejected,
    AgentNotFound,
    StreamRecoveryFailed,
    SlowConsumer,
}

/// Why a conversation cursor could not be decoded.
#[derive(Debug, Clone, Copy, PartialEq, Eq, Structural)]
pub enum CursorDecodeError {
    Malformed,
    Tampered,
    KindMismatch,
    BindingMismatch,
    EventLogEpochMismatch,
    SchemaVersionMismatch,
    QueryVersionMismatch,
}

/// A refused conversation read.
#[derive(Debug, Clone, PartialEq, Eq)]
pub enum ConversationReadError {
    InvalidLimit { resource: String, minimum: u64, maximum: u64, actual: u64 },
    CountLimitExceeded { resource: String, limit: u64 },
    CursorOutsideCoverage,
    Cursor(CursorDecodeError),
    ResetRequired {
        reason: ConversationResetReason,
        requested_seq: u64,
        oldest_retained_seq: u64,
        event_head_seq: u64,
    },
}

/// A failed conversation read: a refusal with its display text, or any
/// other error's message.
#[derive(Debug, Clone, PartialEq, Eq)]
pub enum ConversationFailure {
    Read { error: ConversationReadError, message: String },
    Other(String),
}

/// The kinds of message a conversation change stream sends.
#[derive(Debug, Clone, Copy, PartialEq, Eq, Structural)]
pub enum ConversationStreamMessageKind {
    BatchBegin,
    OperatorUpsert,
    OperatorRemove,
    TurnSummaryUpsert,
    ActivityUpsert,
    DetailInvalidated,
    Checkpoint,
    ResetRequired,
}

/// The `reset_required` stream message.
#[derive(Debug, Clone, PartialEq, Eq)]
pub struct ConversationStreamReset {
    pub reason: ConversationStreamResetReason,
    pub oldest_retained_seq: Option<u64>,
    pub event_head_seq: Option<u64>,
    pub hint: String,
}

// ------------------------------------------------------------ wire names

/// The snake_case wire name of a stream reset reason.
pub open spec fn reset_reason_name(r: ConversationStreamResetReason) -> Seq<char> {
    match r {
        ConversationStreamResetReason::RetentionExpired => "retention_expired"@,
        ConversationStreamResetReason::CursorAhead => "cursor_ahead"@,
        ConversationStreamResetReason::ReplayLimitExceeded => "replay_limit_exceeded"@,
        ConversationStreamResetReason::SchemaVersionMismatch => "schema_version_mismatch"@,
        ConversationStreamResetReason::QueryVersionMismatch => "query_version_mismatch"@,
        ConversationStreamResetReason::EventLogEpochMismatch => "event_log_epoch_mismatch"@,
        ConversationStreamResetReason::CursorRejected => "cursor_rejected"@,
        ConversationStreamResetReason::AgentNotFound => "agent_not_found"@,
        ConversationStreamResetReason::StreamRecoveryFailed => "stream_recovery_failed"@,
        ConversationStreamResetReason::SlowConsumer => "slow_consumer"@,
    }
}

impl ConversationStreamResetReason {
    /// The snake_case name the reason is sent under.
    pub fn as_str(&self) -> (s: &'static str)
        ensures
            s@ == reset_reason_name(*self),
    {
        match self {
            ConversationStreamResetReason::RetentionExpired => "retention_expired",
            ConversationStreamResetReason::CursorAhead => "cursor_ahead",
            ConversationStreamResetReason::ReplayLimitExceeded => "replay_limit_exceeded",
            ConversationStreamResetReason::SchemaVersionMismatch => "schema_version_mismatch",
            ConversationStreamResetReason::QueryVersionMismatch => "query_version_mismatch",
            ConversationStreamResetReason::EventLogEpochMismatch => "event_log_epoch_mismatch",
            ConversationStreamResetReason::CursorRejected => "cursor_rejected",
            ConversationStreamResetReason::AgentNotFound => "agent_not_found",
            ConversationStreamResetReason::StreamRecoveryFailed => "stream_recovery_failed",
            ConversationStreamResetReason::SlowConsumer => "slow_consumer",
        }
    }
}

/// The SSE event name of a stream message kind.
pub open spec fn event_name_of(k: ConversationStreamMessageKind) -> Seq<char> {
    match k {
        ConversationStreamMessageKind::BatchBegin => "batch_begin"@,
        ConversationStreamMessageKind::OperatorUpsert => "operator_upsert"@,
        ConversationStreamMessageKind::OperatorRemove => "operator_remove"@,
        ConversationStreamMessageKind::TurnSummaryUpsert => "turn_summary_upsert"@,
        ConversationStreamMessageKind::ActivityUpsert => "activity_upsert"@,
        ConversationStreamMessageKind::DetailInvalidated => "detail_invalidated"@,
        ConversationStreamMessageKind::Checkpoint => "checkpoint"@,
        ConversationStreamMessageKind::ResetRequired => "reset_required"@,
    }
}

impl ConversationStreamMessageKind {
    /// The SSE event name the message is sent under.
    pub fn event_name(&self) -> (s: &'static str)
        ensures
            s@ == event_name_of(*self),
    {
        match self {
            ConversationStreamMessageKind::BatchBegin => "batch_begin",
            ConversationStreamMessageKind::OperatorUpsert => "operator_upsert",
            ConversationStreamMessageKind::OperatorRemove => "operator_remove",
            ConversationStreamMessageKind::TurnSummaryUpsert => "turn_summary_upsert",
            ConversationStreamMessageKind::ActivityUpsert => "activity_upsert",
            ConversationStreamMessageKind::DetailInvalidated => "detail_invalidated",
            ConversationStreamMessageKind::Checkpoint => "checkpoint",
            ConversationStreamMessageKind::ResetRequired => "reset_required",
        }
    }
}

// ------------------------------------------------------- change batches

/// The kind of one change in a batch of conversation changes.
#[derive(Debug, Clone, Copy, PartialEq, Eq, Structural)]
pub enum ConversationChangeKind {
    OperatorUpsert,
    OperatorRemove,
    TurnSummaryUpsert,
    ActivityUpsert,
    DetailInvalidated,
}

/// The stream message a change is sent as.
pub open spec fn change_message_kind(c: ConversationChangeKind) -> ConversationStreamMessageKind {
    match c {
        ConversationChangeKind::OperatorUpsert => ConversationStreamMessageKind::OperatorUpsert,
        ConversationChangeKind::OperatorRemove => ConversationStreamMessageKind::OperatorRemove,
        ConversationChangeKind::TurnSummaryUpsert => ConversationStreamMessageKind::TurnSummaryUpsert,
        ConversationChangeKind::ActivityUpsert => ConversationStreamMessageKind::ActivityUpsert,
        ConversationChangeKind::DetailInvalidated => ConversationStreamMessageKind::DetailInvalidated,
    }
}

/// One SSE frame of a change batch: the message kind, the index of the
/// change it carries (if any), and the SSE `id` it is sent with (if any).
#[derive(Debug, Clone, PartialEq, Eq)]
pub struct StreamFrame {
    pub kind: ConversationStreamMessageKind,
    pub change: Option<usize>,
    pub id: Option<String>,
}

/// `format!("conversation:{from_seq}:{through_seq}")`.
pub open spec fn batch_id_text(from_seq: u64, through_seq: u64) -> Seq<char> {
    "conversation:"@ + decimal(from_seq as nat) + ":"@ + decimal(through_seq as nat)
}

/// The id that a batch's `batch_begin` and `checkpoint` messages share.
pub fn conversation_batch_id(from_seq: u64, through_seq: u64) -> (r: String)
    ensures
        r@ == batch_id_text(from_seq, through_seq),
{
    let mut id = String::from_str("conversation:");
    push_decimal(&mut id, from_seq);
    push_str(&mut id, ":");
    push_decimal(&mut id, through_seq);
    id
}

/// The frames of a change batch: `batch_begin`, then one frame per change
/// in order, then the `checkpoint`, which alone carries an SSE id (the
/// checkpoint cursor).
pub open spec fn batch_frames_are(frames: Seq<StreamFrame>, changes: Seq<ConversationChangeKind>, checkpoint: Seq<char>) -> bool {
    &&& frames.len() == changes.len() + 2
    &&& frames[0].kind == ConversationStreamMessageKind::BatchBegin
    &&& frames[0].change is None
    &&& frames[0].id is None
    &&& forall|i: int|
        0 <= i < changes.len() ==> {
            &&& (#[trigger] frames[i + 1]).kind == change_message_kind(changes[i])
            &&& frames[i + 1].change == Some(i as usize)
            &&& frames[i + 1].id is None
        }
    &&& frames.last().kind == ConversationStreamMessageKind::Checkpoint
    &&& frames.last().change is None
    &&& frames.last().id matches Some(id) && id@ == checkpoint
}

/// The frames a change batch is sent as, in order.
pub fn change_batch_frames(changes: &Vec<ConversationChangeKind>, checkpoint: &str) -> (r: Vec<StreamFrame>)
    requires
        changes@.len() + 2 <= usize::MAX,
    ensures
        batch_frames_are(r@, changes@, checkpoint@),
{
    let mut frames: Vec<StreamFrame> = Vec::new();
    frames.push(StreamFrame { kind: ConversationStreamMessageKind::BatchBegin, change: None, id: None });
    let mut i: usize = 0;
    while i < changes.len()
        invariant
            i <= changes@.len(),
            frames@.len() == i + 1,
            frames@[0].kind == ConversationStreamMessageKind::BatchBegin,
            frames@[0].change is None,
            frames@[0].id is None,
            forall|k: int|
                0 <= k < i ==> {
                    &&& (#[trigger] frames@[k + 1]).kind == change_message_kind(changes@[k])
                    &&& frames@[k + 1].change == Some(k as usize)
                    &&& frames@[k + 1].id is None
                },
        decreases changes.len() - i,
    {
        let kind = match changes[i] {
            ConversationChangeKind::OperatorUpsert => ConversationStreamMessageKind::OperatorUpsert,
            ConversationChangeKind::OperatorRemove => ConversationStreamMessageKind::OperatorRemove,
            ConversationChangeKind::TurnSummaryUpsert => ConversationStreamMessageKind::TurnSummaryUpsert,
            ConversationChangeKind::ActivityUpsert => ConversationStreamMessageKind::ActivityUpsert,
            ConversationChangeKind::DetailInvalidated => ConversationStreamMessageKind::DetailInvalidated,
        };
        frames.push(StreamFrame { kind, change: Some(i), id: None });
        i = i + 1;
    }
    frames.push(
        StreamFrame {
            kind: ConversationStreamMessageKind::Checkpoint,
            change: None,
            id: Some(String::from_str(checkpoint)),
        },
    );
    frames
}

/// A client that disconnects before a batch's checkpoint frame has seen no
/// SSE id from that batch, so it cannot resume from inside the batch: every
/// frame but the last carries no id, and the last carries the checkpoint.
pub proof fn only_the_checkpoint_frame_is_resumable(
    frames: Seq<StreamFrame>,
    changes: Seq<ConversationChangeKind>,
    checkpoint: Seq<char>,
    received: int,
)
    requires
        batch_frames_are(frames, changes, checkpoint),
        0 <= received < frames.len(),
    ensures
        forall|i: int| 0 <= i < received ==> (#[trigger] frames[i]).id is None,
        frames[frames.len() - 1].id matches Some(id) && id@ == checkpoint,
        forall|i: int|
            0 <= i < frames.len() && (#[trigger] frames[i]).kind == ConversationStreamMessageKind::Checkpoint ==> i
                == frames.len() - 1,
{
    assert forall|i: int| 0 <= i < received implies (#[trigger] frames[i]).id is None by {
        if i > 0 {
            assert(frames[(i - 1) + 1].id is None);
        }
    }
    assert forall|i: int|
        0 <= i < frames.len() && (#[trigger] frames[i]).kind == ConversationStreamMessageKind::Checkpoint implies i
        == frames.len() - 1 by {
        if 0 < i < frames.len() - 1 {
            let k = i - 1;
            assert(frames[k + 1].kind == change_message_kind(changes[k]));
        }
    }
}

/// What a batch of conversation changes says about itself.
#[derive(Debug, Clone, PartialEq, Eq)]
pub struct ChangeBatchHeader {
    pub runtime_id: String,
    pub event_log_epoch: String,
    pub visibility_scope_id: String,
    pub from_seq: u64,
    pub through_seq: u64,
    /// The cursor a client resumes from after this batch.
    pub checkpoint: String,
}

/// The `batch_begin` message that opens a batch.
#[derive(Debug, Clone, PartialEq, Eq)]
pub struct BatchBeginMessage {
    pub batch_id: String,
    pub schema_version: u32,
    pub query_version: u32,
    pub runtime_id: String,
    pub event_log_epoch: String,
    pub visibility_scope_id: String,
    pub from_seq: u64,
    pub through_seq: u64,
}

/// The `checkpoint` message that closes a batch.
#[derive(Debug, Clone, PartialEq, Eq)]
pub struct CheckpointMessage {
    pub batch_id: String,
    pub event_log_epoch: String,
    pub visibility_scope_id: String,
    pub through_seq: u64,
    pub checkpoint: String,
}

/// The `batch_begin` message of a batch, under the conversation schema and
/// query versions the server speaks.
pub fn batch_begin_message(h: &ChangeBatchHeader, schema_version: u32, query_version: u32) -> (m: BatchBeginMessage)
    ensures
        m.batch_id@ == batch_id_text(h.from_seq, h.through_seq),
        m.schema_version == schema_version,
        m.query_version == query_version,
        m.runtime_id@ == h.runtime_id@,
        m.event_log_epoch@ == h.event_log_epoch@,
        m.visibility_scope_id@ == h.visibility_scope_id@,
        m.from_seq == h.from_seq,
        m.through_seq == h.through_seq,
{
    BatchBeginMessage {
        batch_id: conversation_batch_id(h.from_seq, h.through_seq),
        schema_version,
        query_version,
        runtime_id: h.runtime_id.clone(),
        event_log_epoch: h.event_log_epoch.clone(),
        visibility_scope_id: h.visibility_scope_id.clone(),
        from_seq: h.from_seq,
        through_seq: h.through_seq,
    }
}

/// The `checkpoint` message of a batch; its cursor is also the SSE id of
/// its frame (`change_batch_frames`).
pub fn checkpoint_message(h: &ChangeBatchHeader) -> (m: CheckpointMessage)
    ensures
        m.batch_id@ == batch_id_text(h.from_seq, h.through_seq),
        m.event_log_epoch@ == h.event_log_epoch@,
        m.visibility_scope_id@ == h.visibility_scope_id@,
        m.through_seq == h.through_seq,
        m.checkpoint@ == h.checkpoint@,
{
    CheckpointMessage {
        batch_id: conversation_batch_id(h.from_seq, h.through_seq),
        event_log_epoch: h.event_log_epoch.clone(),
        visibility_scope_id: h.visibility_scope_id.clone(),
        through_seq: h.through_seq,
        checkpoint: h.checkpoint.clone(),
    }
}

/// How sending one frame ended: sent, or not (the client went away, the
/// send outlived its time budget, or the frame could not be encoded).
#[derive(Debug, Clone, Copy, PartialEq, Eq, Structural)]
pub enum FrameSendResult {
    Sent,
    ClientGone,
    TimedOut,
    Unencodable,
}

/// What sending a batch's frames does next.
#[derive(Debug, Clone, Copy, PartialEq, Eq, Structural)]
pub enum BatchSendAction {
    /// Send the frame with this index.
    Send(usize),
    /// Stop: `true` when every frame, the checkpoint last, was sent.
    Finished(bool),
}

/// Sending a batch starts with its first frame.
pub fn batch_send_start(frame_count: usize) -> (a: BatchSendAction)
    ensures
        frame_count > 0 ==> a == BatchSendAction::Send(0),
        frame_count == 0 ==> a == BatchSendAction::Finished(true),
{
    if frame_count > 0 {
        BatchSendAction::Send(0)
    } else {
        BatchSendAction::Finished(true)
    }
}

/// After frame `index` of `frame_count`: the next frame when it was sent,
/// success after the last one; any failed send ends the batch at once,
/// unsuccessfully, so no later frame (the checkpoint among them) goes out.
pub fn batch_send_step(frame_count: usize, index: usize, result: FrameSendResult) -> (a: BatchSendAction)
    requires
        index < frame_count,
    ensures
        result == FrameSendResult::Sent && index + 1 < frame_count ==> a == BatchSendAction::Send(
            (index + 1) as usize,
        ),
        result == FrameSendResult::Sent && index + 1 == frame_count ==> a == BatchSendAction::Finished(true),
        result != FrameSendResult::Sent ==> a == BatchSendAction::Finished(false),
{
    match result {
        FrameSendResult::Sent => if index + 1 < frame_count {
            BatchSendAction::Send(index + 1)
        } else {
            BatchSendAction::Finished(true)
        },
        _ => BatchSendAction::Finished(false),
    }
}

/// The frames a batch sends when the `k`-th attempt ends as `results[k]`,
/// starting at frame `from`: how many are attempted, and whether the batch
/// succeeds. Follows `batch_send_step` frame by frame.
pub open spec fn batch_send_run(frame_count: int, from: int, results: Seq<FrameSendResult>) -> (int, bool)
    decreases frame_count - from,
{
    if from >= frame_count || from >= results.len() || from < 0 {
        (from, from >= frame_count)
    } else if results[from] != FrameSendResult::Sent {
        (from + 1, false)
    } else {
        batch_send_run(frame_count, from + 1, results)
    }
}

/// A batch succeeds only when every frame was sent, and a failed send
/// stops it: when frame `j` fails, nothing after `j` is attempted, so a
/// client never receives the checkpoint of a batch it did not fully get.
pub proof fn failed_sends_stop_the_batch(frame_count: int, results: Seq<FrameSendResult>, j: int)
    requires
        0 <= j < frame_count,
        j < results.len(),
        results[j] != FrameSendResult::Sent,
    ensures
        batch_send_run(frame_count, 0, results).0 <= j + 1,
        !batch_send_run(frame_count, 0, results).1,
{
    lemma_batch_send_run(frame_count, 0, results, j);
}

/// When every frame is sent, the whole batch goes out, checkpoint last,
/// and the batch succeeds.
pub proof fn complete_batches_send_every_frame(frame_count: int, results: Seq<FrameSendResult>)
    requires
        0 <= frame_count <= results.len(),
        forall|k: int| 0 <= k < frame_count ==> results[k] == FrameSendResult::Sent,
    ensures
        batch_send_run(frame_count, 0, results) == (frame_count, true),
{
    lemma_batch_send_all(frame_count, 0, results);
}

proof fn lemma_batch_send_all(frame_count: int, from: int, results: Seq<FrameSendResult>)
    requires
        0 <= from <= frame_count <= results.len(),
        forall|k: int| 0 <= k < frame_count ==> results[k] == FrameSendResult::Sent,
    ensures
        batch_send_run(frame_count, from, results) == (frame_count, true),
    decreases frame_count - from,
{
    if from < frame_count {
        lemma_batch_send_all(frame_count, from + 1, results);
    }
}

proof fn lemma_batch_send_run(frame_count: int, from: int, results: Seq<FrameSendResult>, j: int)
    requires
        0 <= from <= j < frame_count,
        j < results.len(),
        results[j] != FrameSendResult::Sent,
    ensures
        batch_send_run(frame_count, from, results).0 <= j + 1,
        !batch_send_run(frame_count, from, results).1,
    decreases j - from,
{
    if results[from] == FrameSendResult::Sent {
        lemma_batch_send_run(frame_count, from + 1, results, j);
    }
}

// ------------------------------------------------------- stream resets

/// The stream reason for an event-log reset reason.
pub open spec fn stream_reason_of(r: ConversationResetReason) -> ConversationStreamResetReason {
    match r {
        ConversationResetReason::RetentionExpired => ConversationStreamResetReason::RetentionExpired,
        ConversationResetReason::CursorAhead => ConversationStreamResetReason::CursorAhead,
        ConversationResetReason::ReplayLimitExceeded => ConversationStreamResetReason::ReplayLimitExceeded,
    }
}

/// Maps an event-log reset reason to the reason a stream reports.
pub fn stream_reset_reason(reason: ConversationResetReason) -> (r: ConversationStreamResetReason)
    ensures
        r == stream_reason_of(reason),
{
    match reason {
        ConversationResetReason::RetentionExpired => ConversationStreamResetReason::RetentionExpired,
        ConversationResetReason::CursorAhead => ConversationStreamResetReason::CursorAhead,
        ConversationResetReason::ReplayLimitExceeded => ConversationStreamResetReason::ReplayLimitExceeded,
    }
}

/// The reason a cursor error is reported under on a stream.
pub open spec fn cursor_reset_reason(c: CursorDecodeError) -> ConversationStreamResetReason {
    match c {
        CursorDecodeError::SchemaVersionMismatch => ConversationStreamResetReason::SchemaVersionMismatch,
        CursorDecodeError::QueryVersionMismatch => ConversationStreamResetReason::QueryVersionMismatch,
        CursorDecodeError::EventLogEpochMismatch => ConversationStreamResetReason::EventLogEpochMismatch,
        _ => ConversationStreamResetReason::CursorRejected,
    }
}

/// The hint every reset message carries.
pub open spec fn reset_hint() -> Seq<char> {
    "bootstrap a fresh conversation snapshot"@
}

/// The reset message a background stream sends when a read fails: the
/// event-log window for a reset-required refusal, the cursor's reason for a
/// cursor error, and `stream_recovery_failed` for anything else.
pub fn reset_message_for_error(error: &ConversationFailure) -> (m: ConversationStreamReset)
    ensures
        m.hint@ == reset_hint(),
        match *error {
            ConversationFailure::Read {
                error: ConversationReadError::ResetRequired { reason, oldest_retained_seq, event_head_seq, .. },
                ..
            } => {
                &&& m.reason == stream_reason_of(reason)
                &&& m.oldest_retained_seq == Some(oldest_retained_seq)
                &&& m.event_head_seq == Some(event_head_seq)
            },
            ConversationFailure::Read { error: ConversationReadError::Cursor(c), .. } => {
                &&& m.reason == cursor_reset_reason(c)
                &&& m.oldest_retained_seq is None
                &&& m.event_head_seq is None
            },
            _ => {
                &&& m.reason == ConversationStreamResetReason::StreamRecoveryFailed
                &&& m.oldest_retained_seq is None
                &&& m.event_head_seq is None
            },
        },
{
    let hint = String::from_str("bootstrap a fresh conversation snapshot");
    match error {
        ConversationFailure::Read {
            error: ConversationReadError::ResetRequired { reason, oldest_retained_seq, event_head_seq, .. },
            ..
        } => ConversationStreamReset {
            reason: stream_reset_reason(*reason),
            oldest_retained_seq: Some(*oldest_retained_seq),
            event_head_seq: Some(*event_head_seq),
            hint,
        },
        ConversationFailure::Read { error: ConversationReadError::Cursor(c), .. } => {
            let reason = match c {
                CursorDecodeError::SchemaVersionMismatch => ConversationStreamResetReason::SchemaVersionMismatch,
                CursorDecodeError::QueryVersionMismatch => ConversationStreamResetReason::QueryVersionMismatch,
                CursorDecodeError::EventLogEpochMismatch => ConversationStreamResetReason::EventLogEpochMismatch,
                _ => ConversationStreamResetReason::CursorRejected,
            };
            ConversationStreamReset { reason, oldest_retained_seq: None, event_head_seq: None, hint }
        },
        _ => ConversationStreamReset {
            reason: ConversationStreamResetReason::StreamRecoveryFailed,
            oldest_retained_seq: None,
            event_head_seq: None,
            hint,
        },
    }
}

// ---------------------------------------------------------- HTTP errors

/// `e` has `status`, `message`, `code` and `hint`.
pub open spec fn error_head(e: HttpError, status: u16, message: Seq<char>, code: Seq<char>, hint: Option<Seq<char>>) -> bool {
    &&& e.status == status
    &&& !e.envelope.ok
    &&& e.envelope.error@ == message
    &&& opt_view(e.envelope.code) == Some(code)
    &&& opt_view(e.envelope.hint) == hint
}

/// The extension `x` is `key` with the text `text`.
pub open spec fn text_ext(x: (String, ExtensionValue), key: Seq<char>, text: Seq<char>) -> bool {
    &&& x.0@ == key
    &&& x.1 matches ExtensionValue::Text(t) && t@ == text
}

/// The extension `x` is `key` with the value `v`.
pub open spec fn value_ext(x: (String, ExtensionValue), key: Seq<char>, v: ExtensionValue) -> bool {
    x.0@ == key && x.1 == v
}

/// The hint of a refused read that needs a fresh snapshot.
pub open spec fn restart_hint() -> Seq<char> {
    "restart from a fresh conversation snapshot"@
}

/// The error code of a cursor that could not be decoded.
pub open spec fn cursor_code(c: CursorDecodeError) -> Seq<char> {
    match c {
        CursorDecodeError::Malformed => "conversation_cursor_malformed"@,
        CursorDecodeError::Tampered => "conversation_cursor_tampered"@,
        CursorDecodeError::KindMismatch => "conversation_cursor_kind_mismatch"@,
        CursorDecodeError::BindingMismatch => "conversation_cursor_scope_mismatch"@,
        CursorDecodeError::EventLogEpochMismatch => "conversation_cursor_event_log_epoch_mismatch"@,
        CursorDecodeError::SchemaVersionMismatch => "conversation_cursor_schema_version_mismatch"@,
        CursorDecodeError::QueryVersionMismatch => "conversation_cursor_query_version_mismatch"@,
    }
}

/// `r` is the response to the failed read `f`.
pub open spec fn is_conversation_error(r: HttpError, f: ConversationFailure) -> bool {
    match f {
        ConversationFailure::Other(message) => crate::errors::plain_error(r, STATUS_INTERNAL_SERVER_ERROR, message@),
        ConversationFailure::Read { error, message } => {
            let ext = r.envelope.extensions@;
            match error {
                ConversationReadError::InvalidLimit { resource, minimum, maximum, actual } => {
                    &&& error_head(r, STATUS_BAD_REQUEST, message@, "conversation_invalid_limit"@, None)
                    &&& ext.len() == 4
                    &&& value_ext(ext[0], "resource"@, ExtensionValue::Text(resource))
                    &&& value_ext(ext[1], "minimum"@, ExtensionValue::Unsigned(minimum))
                    &&& value_ext(ext[2], "maximum"@, ExtensionValue::Unsigned(maximum))
                    &&& value_ext(ext[3], "actual"@, ExtensionValue::Unsigned(actual))
                },
                ConversationReadError::CountLimitExceeded { resource, limit } => {
                    &&& error_head(r, STATUS_PAYLOAD_TOO_LARGE, message@, "conversation_count_limit_exceeded"@, None)
                    &&& ext.len() == 2
                    &&& value_ext(ext[0], "resource"@, ExtensionValue::Text(resource))
                    &&& value_ext(ext[1], "limit"@, ExtensionValue::Unsigned(limit))
                },
                ConversationReadError::CursorOutsideCoverage => {
                    &&& error_head(
                        r,
                        STATUS_CONFLICT,
                        message@,
                        "conversation_cursor_outside_coverage"@,
                        Some(restart_hint()),
                    )
                    &&& ext.len() == 0
                },
                ConversationReadError::Cursor(c) => {
                    &&& error_head(r, STATUS_BAD_REQUEST, message@, cursor_code(c), None)
                    &&& ext.len() == 0
                },
                ConversationReadError::ResetRequired { reason, requested_seq, oldest_retained_seq, event_head_seq } => {
                    &&& error_head(r, STATUS_CONFLICT, message@, "conversation_reset_required"@, Some(restart_hint()))
                    &&& ext.len() == 4
                    &&& text_ext(ext[0], "reason"@, reset_reason_name(stream_reason_of(reason)))
                    &&& value_ext(ext[1], "requested_seq"@, ExtensionValue::Unsigned(requested_seq))
                    &&& value_ext(ext[2], "oldest_retained_seq"@, ExtensionValue::Unsigned(oldest_retained_seq))
                    &&& value_ext(ext[3], "event_head_seq"@, ExtensionValue::Unsigned(event_head_seq))
                },
            }
        },
    }
}

fn envelope_with(
    status: u16,
    message: String,
    code: &str,
    hint: Option<&str>,
    extensions: Vec<(String, ExtensionValue)>,
) -> (r: HttpError)
    ensures
        r.status == status,
        !r.envelope.ok,
        r.envelope.error == message,
        opt_view(r.envelope.code) == Some(code@),
        opt_view(r.envelope.hint) == crate::workspace_listing::opt_str(hint),
        r.envelope.extensions@ == extensions@,
{
    let hint = match hint {
        Some(h) => Some(String::from_str(h)),
        None => None,
    };
    http_error(
        status,
        HttpErrorEnvelope { ok: false, error: message, code: Some(String::from_str(code)), hint, extensions },
    )
}

/// The response to a failed snapshot read: `400` for a bad limit or cursor,
/// `413` when a count limit is exceeded, `409` when the client must restart
/// from a fresh snapshot, each with its code and details; `500` otherwise.
pub fn conversation_error(failure: ConversationFailure) -> (r: HttpError)
    ensures
        is_conversation_error(r, failure),
{
    match failure {
        ConversationFailure::Other(message) => crate::errors::error_response(message),
        ConversationFailure::Read { error, message } => match error {
            ConversationReadError::InvalidLimit { resource, minimum, maximum, actual } => {
                let mut ext: Vec<(String, ExtensionValue)> = Vec::new();
                ext.push((String::from_str("resource"), ExtensionValue::Text(resource)));
                ext.push((String::from_str("minimum"), ExtensionValue::Unsigned(minimum)));
                ext.push((String::from_str("maximum"), ExtensionValue::Unsigned(maximum)));
                ext.push((String::from_str("actual"), ExtensionValue::Unsigned(actual)));
                envelope_with(STATUS_BAD_REQUEST, message, "conversation_invalid_limit", None, ext)
            },
            ConversationReadError::CountLimitExceeded { resource, limit } => {
                let mut ext: Vec<(String, ExtensionValue)> = Vec::new();
                ext.push((String::from_str("resource"), ExtensionValue::Text(resource)));
                ext.push((String::from_str("limit"), ExtensionValue::Unsigned(limit)));
                envelope_with(STATUS_PAYLOAD_TOO_LARGE, message, "conversation_count_limit_exceeded", None, ext)
            },
            ConversationReadError::CursorOutsideCoverage => envelope_with(
                STATUS_CONFLICT,
                message,
                "conversation_cursor_outside_coverage",
                Some("restart from a fresh conversation snapshot"),
                Vec::new(),
            ),
            ConversationReadError::Cursor(c) => {
                let code = match c {
                    CursorDecodeError::Malformed => "conversation_cursor_malformed",
                    CursorDecodeError::Tampered => "conversation_cursor_tampered",
                    CursorDecodeError::KindMismatch => "conversation_cursor_kind_mismatch",
                    CursorDecodeError::BindingMismatch => "conversation_cursor_scope_mismatch",
                    CursorDecodeError::EventLogEpochMismatch => "conversation_cursor_event_log_epoch_mismatch",
                    CursorDecodeError::SchemaVersionMismatch => "conversation_cursor_schema_version_mismatch",
                    CursorDecodeError::QueryVersionMismatch => "conversation_cursor_query_version_mismatch",
                };
                envelope_with(STATUS_BAD_REQUEST, message, code, None, Vec::new())
            },
            ConversationReadError::ResetRequired { reason, requested_seq, oldest_retained_seq, event_head_seq } => {
                let name = stream_reset_reason(reason).as_str();
                let mut ext: Vec<(String, ExtensionValue)> = Vec::new();
                ext.push((String::from_str("reason"), ExtensionValue::Text(String::from_str(name))));
                ext.push((String::from_str("requested_seq"), ExtensionValue::Unsigned(requested_seq)));
                ext.push((String::from_str("oldest_retained_seq"), ExtensionValue::Unsigned(oldest_retained_seq)));
                ext.push((String::from_str("event_head_seq"), ExtensionValue::Unsigned(event_head_seq)));
                envelope_with(
                    STATUS_CONFLICT,
                    message,
                    "conversation_reset_required",
                    Some("restart from a fresh conversation snapshot"),
                    ext,
                )
            },
        },
    }
}

/// Whether a cursor error means the stream must restart from a snapshot.
pub open spec fn cursor_needs_reset(c: CursorDecodeError) -> bool {
    ||| c == CursorDecodeError::SchemaVersionMismatch
    ||| c == CursorDecodeError::QueryVersionMismatch
    ||| c == CursorDecodeError::EventLogEpochMismatch
}

/// The response to a failed stream open: a cursor from another schema,
/// query version or event-log epoch is `409 conversation_reset_required`
/// with the reason; everything else is answered as `conversation_error`.
pub fn conversation_stream_error(failure: ConversationFailure) -> (r: HttpError)
    ensures
        match failure {
            ConversationFailure::Read { error: ConversationReadError::Cursor(c), message } if cursor_needs_reset(c) => {
                &&& error_head(r, STATUS_CONFLICT, message@, "conversation_reset_required"@, Some(restart_hint()))
                &&& r.envelope.extensions@.len() == 1
                &&& text_ext(r.envelope.extensions@[0], "reason"@, reset_reason_name(cursor_reset_reason(c)))
            },
            _ => is_conversation_error(r, failure),
        },
{
    if let ConversationFailure::Read { error: ConversationReadError::Cursor(c), message } = &failure {
        let reason = match c {
            CursorDecodeError::SchemaVersionMismatch => Some("schema_version_mismatch"),
            CursorDecodeError::QueryVersionMismatch => Some("query_version_mismatch"),
            CursorDecodeError::EventLogEpochMismatch => Some("event_log_epoch_mismatch"),
            _ => None,
        };
        if let Some(name) = reason {
            let mut ext: Vec<(String, ExtensionValue)> = Vec::new();
            ext.push((String::from_str("reason"), ExtensionValue::Text(String::from_str(name))));
            return envelope_with(
                STATUS_CONFLICT,
                message.clone(),
                "conversation_reset_required",
                Some("restart from a fresh conversation snapshot"),
                ext,
            );
        }
    }
    conversation_error(failure)
}

/// `404` with code `agent_not_found` when no agent the caller may see has
/// the requested id.
pub fn agent_not_found() -> (r: HttpError)
    ensures
        error_head(r, STATUS_NOT_FOUND, "no accessible Agent for this request"@, "agent_not_found"@, None),
        r.envelope.extensions@.len() == 0,
{
    envelope_with(
        STATUS_NOT_FOUND,
        String::from_str("no accessible Agent for this request"),
        "agent_not_found",
        None,
        Vec::new(),
    )
}

/// `413` with `code` and `message` for a response body over its serialized
/// size budget, carrying the size and the budget.
pub fn payload_too_large(code: &str, message: &str, serialized_bytes: usize, max_serialized_bytes: usize) -> (r: HttpError)
    ensures
        error_head(r, STATUS_PAYLOAD_TOO_LARGE, message@, code@, None),
        r.envelope.extensions@.len() == 2,
        value_ext(r.envelope.extensions@[0], "serialized_bytes"@, ExtensionValue::Unsigned(serialized_bytes as u64)),
        value_ext(
            r.envelope.extensions@[1],
            "max_serialized_bytes"@,
            ExtensionValue::Unsigned(max_serialized_bytes as u64),
        ),
{
    let mut ext: Vec<(String, ExtensionValue)> = Vec::new();
    ext.push((String::from_str("serialized_bytes"), ExtensionValue::Unsigned(serialized_bytes as u64)));
    ext.push((String::from_str("max_serialized_bytes"), ExtensionValue::Unsigned(max_serialized_bytes as u64)));
    envelope_with(STATUS_PAYLOAD_TOO_LARGE, String::from_str(message), code, None, ext)
}

/// `format!("conversation {kind} snapshot exceeded the {secs} second budget")`.
pub open spec fn timeout_message(kind: Seq<char>, timeout_secs: u64) -> Seq<char> {
    "conversation "@ + kind + " snapshot exceeded the "@ + decimal(timeout_secs as nat) + " second budget"@
}

/// `503` with code `conversation_snapshot_timeout`, marked retryable, when a
/// `kind` snapshot read outlives its budget of `timeout_secs` seconds.
pub fn timeout_error(kind: &str, timeout_secs: u64) -> (r: HttpError)
    ensures
        error_head(
            r,
            STATUS_SERVICE_UNAVAILABLE,
            timeout_message(kind@, timeout_secs),
            "conversation_snapshot_timeout"@,
            None,
        ),
        r.envelope.extensions@.len() == 1,
        value_ext(r.envelope.extensions@[0], "retryable"@, ExtensionValue::Flag(true)),
{
    let mut message = String::from_str("conversation ");
    push_str(&mut message, kind);
    push_str(&mut message, " snapshot exceeded the ");
    push_decimal(&mut message, timeout_secs);
    push_str(&mut message, " second budget");
    let mut ext: Vec<(String, ExtensionValue)> = Vec::new();
    ext.push((String::from_str("retryable"), ExtensionValue::Flag(true)));
    envelope_with(STATUS_SERVICE_UNAVAILABLE, message, "conversation_snapshot_timeout", None, ext)
}

// --------------------------------------------------------- change streams

/// The `Last-Event-ID` header of a stream request.
#[derive(Debug, Clone, PartialEq, Eq)]
pub enum LastEventIdHeader {
    Absent,
    /// The header's value as text.
    Text(String),
    /// A value that is not visible text.
    Unreadable,
}

/// Where a change stream starts: the `Last-Event-ID` header when it holds
/// a non-empty cursor, else the `after` query parameter; an unreadable
/// header is `400 conversation_cursor_malformed`.
pub fn stream_start_cursor(last_event_id: LastEventIdHeader, after: Option<String>) -> (r: Result<Option<String>, HttpError>)
    ensures
        match last_event_id {
            LastEventIdHeader::Unreadable => r matches Err(e) && error_head(
                e,
                STATUS_BAD_REQUEST,
                "Last-Event-ID is not valid UTF-8"@,
                "conversation_cursor_malformed"@,
                None,
            ) && e.envelope.extensions@.len() == 0,
            LastEventIdHeader::Text(t) if t@.len() > 0 => r matches Ok(Some(c)) && c@ == t@,
            _ => r matches Ok(c) && crate::errors::opt_view(c) == crate::errors::opt_view(after),
        },
{
    match last_event_id {
        LastEventIdHeader::Unreadable => Err(
            envelope_with(
                STATUS_BAD_REQUEST,
                String::from_str("Last-Event-ID is not valid UTF-8"),
                "conversation_cursor_malformed",
                None,
                Vec::new(),
            ),
        ),
        LastEventIdHeader::Text(t) => {
            if crate::text::chars_of(t.as_str()).len() > 0 {
                Ok(Some(t))
            } else {
                Ok(after)
            }
        },
        LastEventIdHeader::Absent => Ok(after),
    }
}

/// What a running change stream has sent so far: the checkpoint cursor of
/// its last batch and the last event sequence that batch covered.
#[derive(Debug, Clone, PartialEq, Eq)]
pub struct ConversationStreamState {
    pub checkpoint: String,
    pub through_seq: u64,
}

/// What wakes a running change stream.
#[derive(Debug, Clone, PartialEq, Eq)]
pub enum ConversationStreamWake {
    /// An event was published, for an agent (when it has one).
    Published { agent_id: Option<String>, event_seq: u64 },
    /// The stream fell behind the published events.
    Lagged,
    /// The event feed closed.
    FeedClosed,
    /// The client went away.
    ClientGone,
}

/// How a read of the changes after the stream's checkpoint ended.
#[derive(Debug, Clone, PartialEq, Eq)]
pub enum ChangeBatchRead {
    /// A batch; its frames are sent, ending in a new checkpoint.
    Batch { checkpoint: String, through_seq: u64 },
    /// The agent is gone.
    AgentGone,
    /// The read was refused or failed.
    Failed(ConversationFailure),
    /// The read outlived its budget.
    TimedOut,
    /// The read's worker failed.
    WorkerFailed,
}

/// What a change stream does next.
#[derive(Debug, Clone, PartialEq, Eq)]
pub enum ConversationStreamAction {
    /// Nothing; keep waiting.
    Wait,
    /// Read the changes after this checkpoint.
    ReadAfter(String),
    /// Send the batch read, then keep waiting.
    SendBatch,
    /// Send this reset message, then end the stream.
    ResetAndEnd(ConversationStreamReset),
    /// End the stream.
    End,
}

/// A reset message with the bootstrap hint and no event window.
pub open spec fn bare_reset(m: ConversationStreamReset, reason: ConversationStreamResetReason) -> bool {
    &&& m.reason == reason
    &&& m.oldest_retained_seq is None
    &&& m.event_head_seq is None
    &&& m.hint@ == reset_hint()
}

fn reset_with(reason: ConversationStreamResetReason) -> (m: ConversationStreamReset)
    ensures
        bare_reset(m, reason),
{
    ConversationStreamReset {
        reason,
        oldest_retained_seq: None,
        event_head_seq: None,
        hint: String::from_str("bootstrap a fresh conversation snapshot"),
    }
}

/// A stream of `agent_id` reads the changes after its checkpoint when an
/// event of that agent newer than its last batch is published; it ignores
/// other events, ends with a `slow_consumer` reset when it lags, and ends
/// when the feed closes or the client goes away.
pub fn conversation_stream_on_wake(state: &ConversationStreamState, agent_id: &str, wake: ConversationStreamWake) -> (a: ConversationStreamAction)
    ensures
        match wake {
            ConversationStreamWake::Published { agent_id: event_agent, event_seq } => if crate::errors::opt_view(
                event_agent,
            ) == Some(agent_id@) && event_seq > state.through_seq {
                a matches ConversationStreamAction::ReadAfter(c) && c@ == state.checkpoint@
            } else {
                a == ConversationStreamAction::Wait
            },
            ConversationStreamWake::Lagged => a matches ConversationStreamAction::ResetAndEnd(m) && bare_reset(
                m,
                ConversationStreamResetReason::SlowConsumer,
            ),
            _ => a == ConversationStreamAction::End,
        },
{
    match wake {
        ConversationStreamWake::Published { agent_id: event_agent, event_seq } => {
            let mine = match &event_agent {
                Some(a) => {
                    let x = crate::text::chars_of(a.as_str());
                    let y = crate::text::chars_of(agent_id);
                    crate::text::chars_eq(&x, &y)
                },
                None => false,
            };
            if mine && event_seq > state.through_seq {
                ConversationStreamAction::ReadAfter(state.checkpoint.clone())
            } else {
                ConversationStreamAction::Wait
            }
        },
        ConversationStreamWake::Lagged => ConversationStreamAction::ResetAndEnd(
            reset_with(ConversationStreamResetReason::SlowConsumer),
        ),
        ConversationStreamWake::FeedClosed => ConversationStreamAction::End,
        ConversationStreamWake::ClientGone => ConversationStreamAction::End,
    }
}

/// After a read: a batch moves the stream to the batch's checkpoint and is
/// sent; a vanished agent, a failed read and a timeout end the stream with
/// the matching reset message; a failed worker ends it silently.
pub fn conversation_stream_on_read(state: &mut ConversationStreamState, read: ChangeBatchRead) -> (a: ConversationStreamAction)
    ensures
        match read {
            ChangeBatchRead::Batch { checkpoint, through_seq } => {
                &&& a == ConversationStreamAction::SendBatch
                &&& final(state).checkpoint@ == checkpoint@
                &&& final(state).through_seq == through_seq
            },
            ChangeBatchRead::AgentGone => {
                &&& a matches ConversationStreamAction::ResetAndEnd(m) && bare_reset(
                    m,
                    ConversationStreamResetReason::AgentNotFound,
                )
                &&& *final(state) == *old(state)
            },
            ChangeBatchRead::Failed(f) => {
                &&& a matches ConversationStreamAction::ResetAndEnd(m) && m.hint@ == reset_hint() && match f {
                    ConversationFailure::Read {
                        error: ConversationReadError::ResetRequired { reason, oldest_retained_seq, event_head_seq, .. },
                        ..
                    } => m.reason == stream_reason_of(reason) && m.oldest_retained_seq == Some(oldest_retained_seq)
                        && m.event_head_seq == Some(event_head_seq),
                    ConversationFailure::Read { error: ConversationReadError::Cursor(c), .. } => bare_reset(
                        m,
                        cursor_reset_reason(c),
                    ),
                    _ => bare_reset(m, ConversationStreamResetReason::StreamRecoveryFailed),
                }
                &&& *final(state) == *old(state)
            },
            ChangeBatchRead::TimedOut => {
                &&& a matches ConversationStreamAction::ResetAndEnd(m) && bare_reset(
                    m,
                    ConversationStreamResetReason::StreamRecoveryFailed,
                )
                &&& *final(state) == *old(state)
            },
            ChangeBatchRead::WorkerFailed => {
                &&& a == ConversationStreamAction::End
                &&& *final(state) == *old(state)
            },
        },
{
    match read {
        ChangeBatchRead::Batch { checkpoint, through_seq } => {
            state.checkpoint = checkpoint;
            state.through_seq = through_seq;
            ConversationStreamAction::SendBatch
        },
        ChangeBatchRead::AgentGone => ConversationStreamAction::ResetAndEnd(
            reset_with(ConversationStreamResetReason::AgentNotFound),
        ),
        ChangeBatchRead::Failed(f) => ConversationStreamAction::ResetAndEnd(reset_message_for_error(&f)),
        ChangeBatchRead::TimedOut => ConversationStreamAction::ResetAndEnd(
            reset_with(ConversationStreamResetReason::StreamRecoveryFailed),
        ),
        ChangeBatchRead::WorkerFailed => ConversationStreamAction::End,
    }
}

} // verus!
