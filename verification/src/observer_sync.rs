//! Observer-sync contract surface: the capability evaluator and the small
//! value types of the snapshot contract. A capability is advertised only
//! once its durable verification has succeeded; with no verification
//! source every capability stays disabled.
use vstd::prelude::*;

verus! {

pub const ROSTER_SNAPSHOT_CAPABILITY: &'static str = "agents.roster-snapshot.v1";

pub const PROJECTION_SNAPSHOT_CAPABILITY: &'static str = "agents.projection-snapshot.v1";

pub const PROJECTION_EFFECT_CAPABILITY: &'static str = "events.projection-effect.v1";

pub const ATOMIC_BRIEF_CREATED_EVENT_CAPABILITY: &'static str = "briefs.atomic-created-event.v1";

pub const AGENT_ROSTER_SNAPSHOT_CONTRACT_VERSION: u32 = 1;

pub const AGENT_PROJECTION_SNAPSHOT_CONTRACT_VERSION: u32 = 1;

/// Upper bound for a latest-brief preview, in UTF-8 bytes.
pub const LATEST_BRIEF_PREVIEW_MAX_UTF8_BYTES: usize = 512;

/// Durable verification results required before any observer-sync
/// capability may be advertised. Each field is the outcome of a stored
/// verification against the current runtime database.
#[derive(Debug, Clone, Copy, PartialEq, Eq, Structural)]
pub struct ObserverSyncCapabilityVerification {
    /// Stable runtime id and current event-log epoch are persisted.
    pub runtime_identity_stable: bool,
    /// Agent identities are reserved; same-epoch reuse is impossible.
    pub agent_identity_reserved: bool,
    /// Roster snapshot read view, authorization and limit tests passed.
    pub roster_snapshot_verified: bool,
    /// Per-agent projection snapshot boundary and fault tests passed.
    pub projection_snapshot_verified: bool,
    /// Every served event family is classified in the event registry.
    pub event_projection_effect_complete: bool,
    /// Every brief publication commits its record and `brief_created`
    /// event atomically.
    pub brief_atomic_linkage_verified: bool,
}

impl Default for ObserverSyncCapabilityVerification {
    /// Nothing verified.
    fn default() -> (r: Self)
        ensures
            !r.runtime_identity_stable,
            !r.agent_identity_reserved,
            !r.roster_snapshot_verified,
            !r.projection_snapshot_verified,
            !r.event_projection_effect_complete,
            !r.brief_atomic_linkage_verified,
    {
        ObserverSyncCapabilityVerification {
            runtime_identity_stable: false,
            agent_identity_reserved: false,
            roster_snapshot_verified: false,
            projection_snapshot_verified: false,
            event_projection_effect_complete: false,
            brief_atomic_linkage_verified: false,
        }
    }
}

/// Whether the roster snapshot capability is verified, identity included.
pub open spec fn roster_enabled(v: ObserverSyncCapabilityVerification) -> bool {
    v.runtime_identity_stable && v.agent_identity_reserved && v.roster_snapshot_verified
}

/// Whether the projection snapshot capability is verified, identity included.
pub open spec fn projection_snapshot_enabled(v: ObserverSyncCapabilityVerification) -> bool {
    v.runtime_identity_stable && v.agent_identity_reserved && v.projection_snapshot_verified
}

pub open spec fn when(b: bool, name: Seq<char>) -> Seq<Seq<char>> {
    if b {
        seq![name]
    } else {
        Seq::empty()
    }
}

/// The advertised capabilities, in their fixed order.
pub open spec fn advertised(v: ObserverSyncCapabilityVerification) -> Seq<Seq<char>> {
    when(roster_enabled(v), ROSTER_SNAPSHOT_CAPABILITY@) + when(
        projection_snapshot_enabled(v),
        PROJECTION_SNAPSHOT_CAPABILITY@,
    ) + when(v.event_projection_effect_complete, PROJECTION_EFFECT_CAPABILITY@) + when(
        v.brief_atomic_linkage_verified,
        ATOMIC_BRIEF_CREATED_EVENT_CAPABILITY@,
    )
}

pub open spec fn names_of(v: Seq<&'static str>) -> Seq<Seq<char>> {
    Seq::new(v.len(), |i: int| v[i]@)
}

/// Evaluates the four observer-sync capabilities independently. Snapshot
/// capabilities additionally require stable runtime and agent identity,
/// because their responses anchor client caches to that identity.
pub fn advertised_observer_sync_capabilities(verification: &ObserverSyncCapabilityVerification) -> (r: Vec<&'static str>)
    ensures
        names_of(r@) == advertised(*verification),
{
    let mut capabilities: Vec<&'static str> = Vec::new();
    let ghost mut expected: Seq<Seq<char>> = Seq::empty();
    if verification.runtime_identity_stable && verification.agent_identity_reserved
        && verification.roster_snapshot_verified {
        capabilities.push(ROSTER_SNAPSHOT_CAPABILITY);
    }
    proof {
        expected = when(roster_enabled(*verification), ROSTER_SNAPSHOT_CAPABILITY@);
        assert(names_of(capabilities@) =~= expected);
    }
    if verification.runtime_identity_stable && verification.agent_identity_reserved
        && verification.projection_snapshot_verified {
        capabilities.push(PROJECTION_SNAPSHOT_CAPABILITY);
    }
    proof {
        expected = expected + when(
            projection_snapshot_enabled(*verification),
            PROJECTION_SNAPSHOT_CAPABILITY@,
        );
        assert(names_of(capabilities@) =~= expected);
    }
    if verification.event_projection_effect_complete {
        capabilities.push(PROJECTION_EFFECT_CAPABILITY);
    }
    proof {
        expected = expected + when(
            verification.event_projection_effect_complete,
            PROJECTION_EFFECT_CAPABILITY@,
        );
        assert(names_of(capabilities@) =~= expected);
    }
    if verification.brief_atomic_linkage_verified {
        capabilities.push(ATOMIC_BRIEF_CREATED_EVENT_CAPABILITY);
    }
    proof {
        expected = expected + when(
            verification.brief_atomic_linkage_verified,
            ATOMIC_BRIEF_CREATED_EVENT_CAPABILITY@,
        );
        assert(names_of(capabilities@) =~= expected);
    }
    capabilities
}

/// Whether event pages and streams carry the additive `projection_effect`
/// field: only while the projection-effect capability is advertised.
pub fn projection_effect_emission_enabled(verification: &ObserverSyncCapabilityVerification) -> (b: bool)
    ensures
        b == verification.event_projection_effect_complete,
{
    let caps = advertised_observer_sync_capabilities(verification);
    let mut i: usize = 0;
    let mut found = false;
    proof {
        reveal_strlit("agents.roster-snapshot.v1");
        reveal_strlit("agents.projection-snapshot.v1");
        reveal_strlit("events.projection-effect.v1");
        reveal_strlit("briefs.atomic-created-event.v1");
    }
    let ghost names = names_of(caps@);
    while i < caps.len()
        invariant
            i <= caps@.len(),
            names == names_of(caps@),
            names == advertised(*verification),
            found == exists|j: int| 0 <= j < i && names[j] == PROJECTION_EFFECT_CAPABILITY@,
        decreases caps.len() - i,
    {
        let name = caps[i];
        let same = str_eq(name, PROJECTION_EFFECT_CAPABILITY);
        assert(names[i as int] == name@);
        if same {
            found = true;
        }
        i = i + 1;
    }
    proof {
        let v = *verification;
        let a = when(roster_enabled(v), ROSTER_SNAPSHOT_CAPABILITY@);
        let b = when(projection_snapshot_enabled(v), PROJECTION_SNAPSHOT_CAPABILITY@);
        let c = when(v.event_projection_effect_complete, PROJECTION_EFFECT_CAPABILITY@);
        let d = when(v.brief_atomic_linkage_verified, ATOMIC_BRIEF_CREATED_EVENT_CAPABILITY@);
        assert(names =~= a + b + c + d);
        if v.event_projection_effect_complete {
            assert(names[(a.len() + b.len()) as int] == PROJECTION_EFFECT_CAPABILITY@);
        } else {
            assert forall|j: int| 0 <= j < names.len() implies names[j] != PROJECTION_EFFECT_CAPABILITY@ by {
                reveal_strlit("agents.roster-snapshot.v1");
                reveal_strlit("agents.projection-snapshot.v1");
                reveal_strlit("events.projection-effect.v1");
                reveal_strlit("briefs.atomic-created-event.v1");
                if j < a.len() {
                    assert(names[j] == a[j]);
                    assert(a[j][0] != PROJECTION_EFFECT_CAPABILITY@[0]);
                } else if j < a.len() + b.len() {
                    assert(names[j] == b[j - a.len()]);
                    assert(b[j - a.len()][0] != PROJECTION_EFFECT_CAPABILITY@[0]);
                } else {
                    assert(names[j] == d[j - a.len() - b.len()]);
                    assert(d[j - a.len() - b.len()][0] != PROJECTION_EFFECT_CAPABILITY@[0]);
                }
            }
        }
    }
    found
}

/// Whether two strings hold the same characters.
fn str_eq(a: &str, b: &str) -> (r: bool)
    ensures
        r == (a@ == b@),
{
    let va = crate::text::chars_of(a);
    crate::text::chars_eq_str(&va, b)
}

/// Snapshot capabilities are never advertised without stable runtime and
/// agent identity, whatever else was verified.
pub proof fn snapshot_capabilities_require_identity(v: ObserverSyncCapabilityVerification)
    requires
        !v.runtime_identity_stable || !v.agent_identity_reserved,
    ensures
        !advertised(v).contains(ROSTER_SNAPSHOT_CAPABILITY@),
        !advertised(v).contains(PROJECTION_SNAPSHOT_CAPABILITY@),
{
    reveal_strlit("agents.roster-snapshot.v1");
    reveal_strlit("agents.projection-snapshot.v1");
    reveal_strlit("events.projection-effect.v1");
    reveal_strlit("briefs.atomic-created-event.v1");
    let c = when(v.event_projection_effect_complete, PROJECTION_EFFECT_CAPABILITY@);
    let d = when(v.brief_atomic_linkage_verified, ATOMIC_BRIEF_CREATED_EVENT_CAPABILITY@);
    assert(advertised(v) =~= c + d);
    assert forall|j: int| 0 <= j < advertised(v).len() implies advertised(v)[j]
        != ROSTER_SNAPSHOT_CAPABILITY@ && advertised(v)[j] != PROJECTION_SNAPSHOT_CAPABILITY@ by {
        if j < c.len() {
            assert(advertised(v)[j] == PROJECTION_EFFECT_CAPABILITY@);
        } else {
            assert(advertised(v)[j] == ATOMIC_BRIEF_CREATED_EVENT_CAPABILITY@);
        }
    }
}

/// With nothing verified, nothing is advertised.
pub proof fn nothing_advertised_without_verification(v: ObserverSyncCapabilityVerification)
    requires
        !v.runtime_identity_stable,
        !v.agent_identity_reserved,
        !v.roster_snapshot_verified,
        !v.projection_snapshot_verified,
        !v.event_projection_effect_complete,
        !v.brief_atomic_linkage_verified,
    ensures
        advertised(v).len() == 0,
{
}

/// The kind of a record named for hydration.
#[derive(Debug, Clone, Copy, PartialEq, Eq, Structural)]
pub enum ObserverSyncRecordKind {
    Message,
    Brief,
    TranscriptEntry,
}

/// Identifies one canonical record for hydration termination or resolution.
#[derive(Debug, Clone, PartialEq, Eq)]
pub struct AgentHydrationKey {
    pub record_kind: ObserverSyncRecordKind,
    pub record_id: String,
}

/// How an event affects the web projection. Unclassified events count as
/// display invalidations.
#[derive(Debug, Clone, Copy, PartialEq, Eq, Structural)]
pub enum ProjectionEffect {
    /// Does not affect the web projection; never blocks readiness
    /// (serialized as `none`).
    NoEffect,
    /// Invalidates display state derived from the referenced record.
    DisplayInvalidation,
}

/// Committed event window for one agent inside a snapshot read view.
#[derive(Debug, Clone, Copy, PartialEq, Eq, Structural)]
pub struct AgentEventWindow {
    /// Greatest committed event sequence visible in the read view.
    pub event_head_seq: u64,
    /// First event still replayable; `None` when the agent has no events.
    pub oldest_retained_seq: Option<u64>,
}

/// Latest-record anchors for conversation families without a per-record
/// revision counter.
#[derive(Debug, Clone, PartialEq, Eq)]
pub struct ConversationRevisionAnchors {
    pub latest_message_id: Option<String>,
    pub latest_transcript_entry_id: Option<String>,
}

/// Rich `cursor_not_found` body for event pages and streams; all window
/// values come from one committed read view.
#[derive(Debug, Clone, PartialEq, Eq)]
pub struct RichCursorNotFoundError {
    pub ok: bool,
    pub error: String,
    pub code: String,
    pub after_seq: u64,
    pub event_log_epoch: String,
    pub oldest_retained_seq: Option<u64>,
    pub event_head_seq: u64,
}

} // verus!
