//! Which enqueue requests the runtime admits: runtime-owned message kinds
//! are refused, public callers may not interject, name origins other than a
//! channel or a webhook, or choose their authority; missing fields take
//! their defaults.
use vstd::prelude::*;
use crate::errors::{forbidden, plain_error, HttpError, STATUS_FORBIDDEN};
use crate::json::JsonValue;
use crate::types::{into_origin, AuthorityClass, IncomingOrigin, MessageOrigin};

verus! {

/// The kind of an enqueued message.
#[derive(Debug, Clone, Copy, PartialEq, Eq, Structural)]
pub enum MessageKind {
    OperatorPrompt,
    WebhookEvent,
    SystemTick,
    CallbackEvent,
}

/// How urgently a message is handled.
#[derive(Debug, Clone, Copy, PartialEq, Eq, Structural)]
pub enum Priority {
    Normal,
    Interject,
}

/// The body of an enqueued message.
#[derive(Debug, PartialEq, Eq)]
pub enum MessageBody {
    Text { text: String },
    Json { value: JsonValue },
}

/// What an admitted enqueue request carries into the runtime.
#[derive(Debug, Clone, PartialEq, Eq)]
pub struct Admission {
    pub kind: MessageKind,
    pub priority: Priority,
    pub origin: MessageOrigin,
    pub authority: AuthorityClass,
}

/// The runtime origin of a claimed origin, field for field.
pub open spec fn converted_origin(o: IncomingOrigin) -> MessageOrigin {
    match o {
        IncomingOrigin::Operator { actor_id } => MessageOrigin::Operator { actor_id },
        IncomingOrigin::Channel { channel_id, sender_id } => MessageOrigin::Channel { channel_id, sender_id },
        IncomingOrigin::Webhook { source, event_type } => MessageOrigin::Webhook { source, event_type },
        IncomingOrigin::Timer { timer_id } => MessageOrigin::Timer { timer_id },
        IncomingOrigin::System { subsystem } => MessageOrigin::System { subsystem },
        IncomingOrigin::Task { task_id } => MessageOrigin::Task { task_id },
    }
}

/// The origin of a request that names none: an `http` webhook.
pub open spec fn default_http_origin(o: MessageOrigin) -> bool {
    o matches MessageOrigin::Webhook { source, event_type } && source@ == "http"@ && event_type is None
}

/// The kind a request names, `webhook_event` by default.
pub open spec fn kind_of(kind: Option<MessageKind>) -> MessageKind {
    match kind {
        Some(k) => k,
        None => MessageKind::WebhookEvent,
    }
}

/// The priority a request names, `normal` by default.
pub open spec fn priority_of(priority: Option<Priority>) -> Priority {
    match priority {
        Some(p) => p,
        None => Priority::Normal,
    }
}

/// Kinds only the runtime itself may enqueue.
pub open spec fn runtime_owned(k: MessageKind) -> bool {
    k == MessageKind::SystemTick || k == MessageKind::CallbackEvent
}

/// Whether a public caller names an origin other than a channel or a webhook.
pub open spec fn foreign_public_origin(origin: Option<IncomingOrigin>) -> bool {
    origin matches Some(o) && !(o is Channel) && !(o is Webhook)
}

/// The first refusal of an enqueue request, in the order the checks run.
pub open spec fn enqueue_refusal(
    kind: Option<MessageKind>,
    priority: Option<Priority>,
    origin: Option<IncomingOrigin>,
    authority_override: Option<AuthorityClass>,
    public: bool,
) -> Option<Seq<char>> {
    if runtime_owned(kind_of(kind)) {
        Some("runtime-owned message kinds may not be enqueued externally"@)
    } else if public && priority_of(priority) == Priority::Interject {
        Some("public enqueue may not use interject priority"@)
    } else if public && foreign_public_origin(origin) {
        Some("public enqueue only accepts channel or webhook origins"@)
    } else if public && authority_override is Some {
        Some("public enqueue may not override authority_class"@)
    } else {
        None
    }
}

fn http_origin() -> (o: MessageOrigin)
    ensures
        default_http_origin(o),
{
    MessageOrigin::Webhook { source: String::from_str("http"), event_type: None }
}

/// Admits or refuses an enqueue request. `public` tells a public request
/// from a trusted ingress; `default_authority` is the policy's default
/// authority for the origin the request is admitted with. Every refusal is
/// `403`. Whether the admitted kind may come from the admitted origin is
/// the runtime's message policy, checked by the caller after admission.
pub fn enqueue_admission(
    kind: Option<MessageKind>,
    priority: Option<Priority>,
    origin: Option<IncomingOrigin>,
    authority_override: Option<AuthorityClass>,
    public: bool,
    default_authority: AuthorityClass,
) -> (r: Result<Admission, HttpError>)
    ensures
        match enqueue_refusal(kind, priority, origin, authority_override, public) {
            Some(m) => r matches Err(e) && plain_error(e, STATUS_FORBIDDEN, m),
            None => r matches Ok(a) && {
                &&& a.kind == kind_of(kind)
                &&& a.priority == priority_of(priority)
                &&& match origin {
                    Some(o) => a.origin == converted_origin(o),
                    None => default_http_origin(a.origin),
                }
                &&& a.authority == match authority_override {
                    Some(c) => c,
                    None => default_authority,
                }
            },
        },
{
    let kind = match kind {
        Some(k) => k,
        None => MessageKind::WebhookEvent,
    };
    if kind == MessageKind::SystemTick || kind == MessageKind::CallbackEvent {
        return Err(forbidden(String::from_str("runtime-owned message kinds may not be enqueued externally")));
    }
    let priority = match priority {
        Some(p) => p,
        None => Priority::Normal,
    };
    if public && priority == Priority::Interject {
        return Err(forbidden(String::from_str("public enqueue may not use interject priority")));
    }
    let origin = match origin {
        Some(o) => {
            let allowed = match &o {
                IncomingOrigin::Channel { .. } => true,
                IncomingOrigin::Webhook { .. } => true,
                _ => false,
            };
            if public && !allowed {
                return Err(forbidden(String::from_str("public enqueue only accepts channel or webhook origins")));
            }
            into_origin(o)
        },
        None => http_origin(),
    };
    let authority = match authority_override {
        Some(c) => {
            if public {
                return Err(forbidden(String::from_str("public enqueue may not override authority_class")));
            }
            c
        },
        None => default_authority,
    };
    Ok(Admission { kind, priority, origin, authority })
}

/// The body of an enqueued message: the body given, else its text, else
/// its JSON value, else empty text.
pub fn enqueue_body(body: Option<MessageBody>, text: Option<String>, json: Option<JsonValue>) -> (r: MessageBody)
    ensures
        match body {
            Some(b) => r == b,
            None => match (text, json) {
                (Some(t), _) => r matches MessageBody::Text { text: x } && x == t,
                (None, Some(v)) => r matches MessageBody::Json { value: x } && x == v,
                (None, None) => r matches MessageBody::Text { text: x } && x@.len() == 0,
            },
        },
{
    match body {
        Some(b) => b,
        None => match (text, json) {
            (Some(t), _) => MessageBody::Text { text: t },
            (None, Some(v)) => MessageBody::Json { value: v },
            (None, None) => MessageBody::Text { text: String::new() },
        },
    }
}

/// A public enqueue request is admitted exactly when it names no
/// runtime-owned kind (`system_tick`, `callback_event`), does not ask for
/// interject priority, names no origin or a channel or webhook origin, and
/// does not choose its authority; a trusted request is admitted exactly
/// when its kind is not runtime-owned.
pub proof fn public_enqueue_admits_channels_and_webhooks(
    kind: Option<MessageKind>,
    priority: Option<Priority>,
    origin: Option<IncomingOrigin>,
    authority_override: Option<AuthorityClass>,
)
    ensures
        enqueue_refusal(kind, priority, origin, authority_override, true) is None <==> {
            &&& kind != Some(MessageKind::SystemTick)
            &&& kind != Some(MessageKind::CallbackEvent)
            &&& priority != Some(Priority::Interject)
            &&& match origin {
                None => true,
                Some(IncomingOrigin::Channel { .. }) => true,
                Some(IncomingOrigin::Webhook { .. }) => true,
                Some(_) => false,
            }
            &&& authority_override is None
        },
        enqueue_refusal(kind, priority, origin, authority_override, false) is None <==> {
            &&& kind != Some(MessageKind::SystemTick)
            &&& kind != Some(MessageKind::CallbackEvent)
        },
{
}

} // verus!
