//! The single-flight cache in front of expensive projections (the agent
//! list, an agent's state): concurrent requests for one key share one
//! build, a finished build is served from cache until its time-to-live
//! runs out, and at most `max_leaders` builds run at once. This module is
//! the bookkeeping of that cache; the caller runs the builds and wakes waiters.
use vstd::prelude::*;
use crate::text::{chars_eq, chars_of};

verus! {

pub const DEFAULT_MAX_LEADERS: usize = 4;

/// Default time-to-live of a cached projection, in milliseconds.
pub const DEFAULT_TTL_MILLIS: u64 = 250;

/// What waiters of a cancelled build are answered: `503` with code
/// `projection_leader_cancelled`, marked retryable.
pub fn leader_cancelled() -> (r: crate::errors::HttpError)
    ensures
        r.status == crate::errors::STATUS_SERVICE_UNAVAILABLE,
        !r.envelope.ok,
        r.envelope.error@ == "projection leader was cancelled"@,
        crate::errors::opt_view(r.envelope.code) == Some("projection_leader_cancelled"@),
        r.envelope.hint is None,
        r.envelope.extensions@.len() == 1,
        r.envelope.extensions@[0].0@ == "retryable"@,
        r.envelope.extensions@[0].1 == crate::errors::ExtensionValue::Flag(true),
{
    let mut ext: Vec<(String, crate::errors::ExtensionValue)> = Vec::new();
    ext.push((String::from_str("retryable"), crate::errors::ExtensionValue::Flag(true)));
    crate::errors::http_error(
        crate::errors::STATUS_SERVICE_UNAVAILABLE,
        crate::errors::HttpErrorEnvelope {
            ok: false,
            error: String::from_str("projection leader was cancelled"),
            code: Some(String::from_str("projection_leader_cancelled")),
            hint: None,
            extensions: ext,
        },
    )
}

/// How a flight ended: its bytes, its build's error, or a leader that went
/// away without finishing.
#[derive(Debug)]
pub enum FlightOutcome {
    Built(Vec<u8>),
    Failed(crate::errors::HttpError),
    Cancelled,
}

/// What the leader and every waiter of a flight receive: the bytes of a
/// finished build, its error, or the retryable `503` when the leader was
/// cancelled.
pub fn flight_result(outcome: FlightOutcome) -> (r: Result<Vec<u8>, crate::errors::HttpError>)
    ensures
        match outcome {
            FlightOutcome::Built(b) => r matches Ok(x) && x@ == b@,
            FlightOutcome::Failed(e) => r matches Err(x) && x == e,
            FlightOutcome::Cancelled => r matches Err(x) && {
                &&& x.status == crate::errors::STATUS_SERVICE_UNAVAILABLE
                &&& x.envelope.error@ == "projection leader was cancelled"@
                &&& crate::errors::opt_view(x.envelope.code) == Some("projection_leader_cancelled"@)
                &&& x.envelope.extensions@.len() == 1
                &&& x.envelope.extensions@[0].1 == crate::errors::ExtensionValue::Flag(true)
            },
        },
{
    match outcome {
        FlightOutcome::Built(b) => Ok(b),
        FlightOutcome::Failed(e) => Err(e),
        FlightOutcome::Cancelled => Err(leader_cancelled()),
    }
}

/// What is being projected.
#[derive(Debug, Clone, PartialEq, Eq)]
pub enum ProjectionKey {
    AgentsList,
    AgentState(String),
}

pub enum ProjectionKeyView {
    AgentsList,
    AgentState(Seq<char>),
}

impl View for ProjectionKey {
    type V = ProjectionKeyView;

    open spec fn view(&self) -> ProjectionKeyView {
        match self {
            ProjectionKey::AgentsList => ProjectionKeyView::AgentsList,
            ProjectionKey::AgentState(id) => ProjectionKeyView::AgentState(id@),
        }
    }
}

/// The record for a key: a build in flight, or its cached bytes
/// with the instant they expire.
#[derive(Debug)]
pub enum GateEntry {
    InFlight { flight: u64 },
    Ready { bytes: Vec<u8>, expires_at: u64 },
}

pub enum GateEntryView {
    InFlight { flight: u64 },
    Ready { bytes: Seq<u8>, expires_at: u64 },
}

impl View for GateEntry {
    type V = GateEntryView;

    open spec fn view(&self) -> GateEntryView {
        match self {
            GateEntry::InFlight { flight } => GateEntryView::InFlight { flight: *flight },
            GateEntry::Ready { bytes, expires_at } => GateEntryView::Ready {
                bytes: bytes@,
                expires_at: *expires_at,
            },
        }
    }
}

/// What a request for a key does.
#[derive(Debug)]
pub enum GateDecision {
    /// Serve the cached bytes.
    Ready(Vec<u8>),
    /// Wait for the build in flight.
    Wait(u64),
    /// Build it, as the leader of this flight.
    Lead(u64),
    /// Too many builds run; refuse.
    Reject,
}

pub enum GateDecisionView {
    Ready(Seq<u8>),
    Wait(u64),
    Lead(u64),
    Reject,
}

impl View for GateDecision {
    type V = GateDecisionView;

    open spec fn view(&self) -> GateDecisionView {
        match self {
            GateDecision::Ready(b) => GateDecisionView::Ready(b@),
            GateDecision::Wait(f) => GateDecisionView::Wait(*f),
            GateDecision::Lead(f) => GateDecisionView::Lead(*f),
            GateDecision::Reject => GateDecisionView::Reject,
        }
    }
}

/// The state of the cache: one entry per key, how many builds run, the id of the
/// next flight, and the limits.
pub struct GateView {
    pub entries: Seq<(ProjectionKeyView, GateEntryView)>,
    pub leaders: nat,
    pub max_leaders: nat,
    pub next_flight: nat,
    pub ttl: nat,
}

/// Index of the entry for `key`, or `-1`.
pub open spec fn key_index(entries: Seq<(ProjectionKeyView, GateEntryView)>, key: ProjectionKeyView) -> int
    decreases entries.len(),
{
    if entries.len() == 0 {
        -1
    } else if entries.last().0 == key {
        entries.len() - 1
    } else {
        key_index(entries.drop_last(), key)
    }
}

/// The entry for `key`, if any.
pub open spec fn entry_of(entries: Seq<(ProjectionKeyView, GateEntryView)>, key: ProjectionKeyView) -> Option<GateEntryView> {
    let i = key_index(entries, key);
    if i >= 0 {
        Some(entries[i].1)
    } else {
        None
    }
}

/// An entry still worth keeping at `now`: a build in flight, or bytes that
/// have not expired.
pub open spec fn live(e: GateEntryView, now: u64) -> bool {
    match e {
        GateEntryView::InFlight { .. } => true,
        GateEntryView::Ready { expires_at, .. } => expires_at > now,
    }
}

/// The entries without those expired at `now`.
pub open spec fn prune(entries: Seq<(ProjectionKeyView, GateEntryView)>, now: u64) -> Seq<(ProjectionKeyView, GateEntryView)>
    decreases entries.len(),
{
    if entries.len() == 0 {
        entries
    } else {
        let p = prune(entries.drop_last(), now);
        if live(entries.last().1, now) {
            p.push(entries.last())
        } else {
            p
        }
    }
}

/// Number of builds in flight.
pub open spec fn in_flight(entries: Seq<(ProjectionKeyView, GateEntryView)>) -> nat
    decreases entries.len(),
{
    if entries.len() == 0 {
        0
    } else {
        in_flight(entries.drop_last()) + if entries.last().1 is InFlight {
            1nat
        } else {
            0nat
        }
    }
}

/// The invariant: one entry per key, one leader per build in
/// flight, within the limit, and flight ids below the next one.
pub open spec fn gate_wf(g: GateView) -> bool {
    &&& forall|i: int, j: int|
        0 <= i < j < g.entries.len() ==> #[trigger] g.entries[i].0 != #[trigger] g.entries[j].0
    &&& g.leaders == in_flight(g.entries)
    &&& g.leaders <= g.max_leaders
    &&& forall|i: int|
        0 <= i < g.entries.len() ==> (#[trigger] g.entries[i].1 matches GateEntryView::InFlight {
            flight,
        } ==> flight < g.next_flight)
}

/// A request for `key` at `now`: cached bytes that are still fresh are
/// served, a build in flight is joined; otherwise expired entries are
/// dropped and the request leads a new build, or is refused when
/// `max_leaders` builds already run.
pub open spec fn begin_step(g: GateView, key: ProjectionKeyView, now: u64) -> (GateDecisionView, GateView) {
    match entry_of(g.entries, key) {
        Some(GateEntryView::InFlight { flight }) => (GateDecisionView::Wait(flight), g),
        Some(GateEntryView::Ready { bytes, expires_at }) if expires_at > now => (
            GateDecisionView::Ready(bytes),
            g,
        ),
        _ => {
            let pruned = prune(g.entries, now);
            if g.leaders < g.max_leaders {
                (
                    GateDecisionView::Lead(g.next_flight as u64),
                    GateView {
                        entries: pruned.push((key, GateEntryView::InFlight { flight: g.next_flight as u64 })),
                        leaders: g.leaders + 1,
                        next_flight: g.next_flight + 1,
                        ..g
                    },
                )
            } else {
                (GateDecisionView::Reject, GateView { entries: pruned, ..g })
            }
        },
    }
}

/// The leader of `flight` for `key` finished at `now`: its bytes are
/// cached for the time-to-live, or, when the build failed, the key is
/// released for a retry. Its slot is freed either way.
pub open spec fn finish_step(g: GateView, key: ProjectionKeyView, flight: u64, result: Option<Seq<u8>>, now: u64) -> GateView {
    let i = key_index(g.entries, key);
    let entries = if i >= 0 && g.entries[i].1 == (GateEntryView::InFlight { flight }) {
        match result {
            Some(b) => g.entries.update(
                i,
                (key, GateEntryView::Ready { bytes: b, expires_at: (now + g.ttl) as u64 }),
            ),
            None => g.entries.remove(i),
        }
    } else {
        g.entries
    };
    GateView { entries, leaders: (g.leaders - 1) as nat, ..g }
}

/// The leader of `flight` for `key` went away without finishing: the key
/// is released and its slot freed.
pub open spec fn cancel_step(g: GateView, key: ProjectionKeyView, flight: u64) -> GateView {
    finish_step(g, key, flight, None, 0)
}


// ------------------------------------------------------------------ lemmas

pub open spec fn keys_unique(s: Seq<(ProjectionKeyView, GateEntryView)>) -> bool {
    forall|i: int, j: int| 0 <= i < j < s.len() ==> #[trigger] s[i].0 != #[trigger] s[j].0
}

/// With unique keys, the entry for `key` is the one at the position
/// holding it.
pub proof fn lemma_entry_of(s: Seq<(ProjectionKeyView, GateEntryView)>, key: ProjectionKeyView)
    requires
        keys_unique(s),
    ensures
        -1 <= key_index(s, key) < s.len(),
        key_index(s, key) >= 0 ==> s[key_index(s, key)].0 == key,
        forall|j: int| 0 <= j < s.len() && #[trigger] s[j].0 == key ==> key_index(s, key) == j,
        key_index(s, key) == -1 <==> forall|j: int| 0 <= j < s.len() ==> #[trigger] s[j].0 != key,
    decreases s.len(),
{
    if s.len() > 0 {
        let d = s.drop_last();
        assert(keys_unique(d)) by {
            assert forall|i: int, j: int| 0 <= i < j < d.len() implies #[trigger] d[i].0 != #[trigger] d[j].0 by {
                assert(d[i] == s[i] && d[j] == s[j]);
            }
        }
        lemma_entry_of(d, key);
        assert forall|j: int| 0 <= j < s.len() && #[trigger] s[j].0 == key implies key_index(s, key) == j by {
            if j < s.len() - 1 {
                assert(d[j] == s[j]);
                if s.last().0 == key {
                    assert(s[j].0 != s[s.len() - 1].0);
                }
            }
        }
        if key_index(s, key) == -1 {
            assert forall|j: int| 0 <= j < s.len() implies #[trigger] s[j].0 != key by {
                if j < s.len() - 1 {
                    assert(d[j] == s[j]);
                }
            }
        }
    }
}

/// Dropping expired entries distributes over concatenation.
pub proof fn lemma_prune_concat(
    a: Seq<(ProjectionKeyView, GateEntryView)>,
    b: Seq<(ProjectionKeyView, GateEntryView)>,
    now: u64,
)
    ensures
        prune(a + b, now) == prune(a, now) + prune(b, now),
    decreases b.len(),
{
    if b.len() == 0 {
        assert(a + b =~= a);
        assert(prune(a, now) + prune(b, now) =~= prune(a, now));
    } else {
        assert((a + b).drop_last() =~= a + b.drop_last());
        lemma_prune_concat(a, b.drop_last(), now);
        if live(b.last().1, now) {
            assert(prune(a, now) + prune(b, now) =~= (prune(a, now) + prune(b.drop_last(), now)).push(
                b.last(),
            ));
        }
    }
}

/// What survives pruning: exactly the live entries, in order; builds in
/// flight all survive.
pub proof fn lemma_prune(s: Seq<(ProjectionKeyView, GateEntryView)>, now: u64)
    ensures
        forall|j: int| 0 <= j < prune(s, now).len() ==> s.contains(#[trigger] prune(s, now)[j]) && live(
            prune(s, now)[j].1,
            now,
        ),
        forall|j: int| 0 <= j < s.len() && live(#[trigger] s[j].1, now) ==> prune(s, now).contains(s[j]),
        in_flight(prune(s, now)) == in_flight(s),
        keys_unique(s) ==> keys_unique(prune(s, now)),
        keys_unique(s) ==> forall|k: ProjectionKeyView|
            #![trigger entry_of(prune(s, now), k)]
            entry_of(prune(s, now), k) == match entry_of(s, k) {
                Some(e) => if live(e, now) {
                    Some(e)
                } else {
                    None
                },
                None => None,
            },
    decreases s.len(),
{
    if s.len() > 0 {
        let d = s.drop_last();
        let p = prune(d, now);
        lemma_prune(d, now);
        let ps = prune(s, now);
        assert forall|j: int| 0 <= j < ps.len() implies s.contains(#[trigger] ps[j]) && live(ps[j].1, now) by {
            if j < p.len() {
                assert(ps[j] == p[j]);
                let w = choose|w: int| 0 <= w < d.len() && d[w] == p[j];
                assert(s[w] == d[w]);
            } else {
                assert(s[s.len() - 1] == ps[j]);
            }
        }
        assert forall|j: int| 0 <= j < s.len() && live(#[trigger] s[j].1, now) implies ps.contains(s[j]) by {
            if j < s.len() - 1 {
                assert(d[j] == s[j]);
                let w = choose|w: int| 0 <= w < p.len() && p[w] == d[j];
                assert(ps[w] == p[w]);
            } else {
                assert(ps[ps.len() - 1] == s[j]);
            }
        }
        if live(s.last().1, now) {
            assert(ps.drop_last() =~= p);
        }
        if keys_unique(s) {
            assert(keys_unique(d)) by {
                assert forall|i: int, j: int| 0 <= i < j < d.len() implies #[trigger] d[i].0 != #[trigger] d[j].0 by {
                    assert(d[i] == s[i] && d[j] == s[j]);
                }
            }
            assert(keys_unique(ps)) by {
                assert forall|i: int, j: int| 0 <= i < j < ps.len() implies #[trigger] ps[i].0 != #[trigger] ps[j].0 by {
                    if live(s.last().1, now) && j == ps.len() - 1 {
                        assert(ps[i] == p[i]);
                        assert(d.contains(p[i]));
                        let w = choose|w: int| 0 <= w < d.len() && d[w] == p[i];
                        assert(s[w] == d[w]);
                        assert(s[s.len() - 1] == ps[j]);
                    } else {
                        assert(ps[i] == p[i] && ps[j] == p[j]);
                    }
                }
            }
            assert forall|k: ProjectionKeyView| #[trigger] entry_of(ps, k) == match entry_of(s, k) {
                Some(e) => if live(e, now) {
                    Some(e)
                } else {
                    None
                },
                None => None,
            } by {
                lemma_entry_of(s, k);
                lemma_entry_of(d, k);
                lemma_entry_of(ps, k);
                lemma_entry_of(p, k);
                if s.last().0 == k {
                    if !live(s.last().1, now) {
                        assert(key_index(d, k) == -1) by {
                            assert forall|j: int| 0 <= j < d.len() implies #[trigger] d[j].0 != k by {
                                assert(d[j] == s[j]);
                                assert(s[j].0 != s[s.len() - 1].0);
                            }
                        }
                        if key_index(p, k) >= 0 {
                            let w = key_index(p, k);
                            let v = choose|v: int| 0 <= v < d.len() && d[v] == p[w];
                            assert(d[v].0 == k);
                        }
                    }
                }
            }
        }
    }
}

/// Builds in flight after replacing or removing one entry.
pub proof fn lemma_in_flight_update(s: Seq<(ProjectionKeyView, GateEntryView)>, i: int, x: (ProjectionKeyView, GateEntryView))
    requires
        0 <= i < s.len(),
    ensures
        in_flight(s.update(i, x)) + (if s[i].1 is InFlight {
            1int
        } else {
            0int
        }) == in_flight(s) + (if x.1 is InFlight {
            1int
        } else {
            0int
        }),
        in_flight(s.remove(i)) + (if s[i].1 is InFlight {
            1int
        } else {
            0int
        }) == in_flight(s),
    decreases s.len(),
{
    if i < s.len() - 1 {
        lemma_in_flight_update(s.drop_last(), i, x);
        assert(s.update(i, x).drop_last() =~= s.drop_last().update(i, x));
        assert(s.remove(i).drop_last() =~= s.drop_last().remove(i));
        assert(s.remove(i).last() == s.last());
    } else {
        assert(s.update(i, x).drop_last() =~= s.drop_last());
        assert(s.remove(i) =~= s.drop_last());
    }
}


// -------------------------------------------------------------- the cache

/// The single-flight projection cache.
pub struct ProjectionGate {
    entries: Vec<(ProjectionKey, GateEntry)>,
    leaders: usize,
    max_leaders: usize,
    next_flight: u64,
    ttl: u64,
}

pub open spec fn entry_views(v: Seq<(ProjectionKey, GateEntry)>) -> Seq<(ProjectionKeyView, GateEntryView)> {
    v.map_values(|p: (ProjectionKey, GateEntry)| (p.0@, p.1@))
}

impl View for ProjectionGate {
    type V = GateView;

    closed spec fn view(&self) -> GateView {
        GateView {
            entries: entry_views(self.entries@),
            leaders: self.leaders as nat,
            max_leaders: self.max_leaders as nat,
            next_flight: self.next_flight as nat,
            ttl: self.ttl as nat,
        }
    }
}

fn key_eq(a: &ProjectionKey, b: &ProjectionKey) -> (r: bool)
    ensures
        r == (a@ == b@),
{
    match (a, b) {
        (ProjectionKey::AgentsList, ProjectionKey::AgentsList) => true,
        (ProjectionKey::AgentState(x), ProjectionKey::AgentState(y)) => {
            let vx = chars_of(x.as_str());
            let vy = chars_of(y.as_str());
            chars_eq(&vx, &vy)
        },
        _ => false,
    }
}

fn copy_key(k: &ProjectionKey) -> (r: ProjectionKey)
    ensures
        r@ == k@,
{
    match k {
        ProjectionKey::AgentsList => ProjectionKey::AgentsList,
        ProjectionKey::AgentState(id) => {
            let v = chars_of(id.as_str());
            ProjectionKey::AgentState(crate::text::string_from_chars(&v))
        },
    }
}

fn copy_bytes(b: &Vec<u8>) -> (r: Vec<u8>)
    ensures
        r@ == b@,
{
    let mut r: Vec<u8> = Vec::new();
    let mut i: usize = 0;
    while i < b.len()
        invariant
            i <= b@.len(),
            r@ == b@.take(i as int),
        decreases b.len() - i,
    {
        r.push(b[i]);
        i = i + 1;
        assert(r@ =~= b@.take(i as int));
    }
    assert(b@.take(b@.len() as int) =~= b@);
    r
}

impl ProjectionGate {
    /// Whether the bookkeeping is consistent.
    pub closed spec fn wf(&self) -> bool {
        gate_wf(self@)
    }

    /// A cache allowing `max_leaders` concurrent builds whose results stay
    /// fresh for `ttl` time units.
    pub fn new(max_leaders: usize, ttl: u64) -> (r: Self)
        ensures
            r.wf(),
            r@.entries.len() == 0,
            r@.leaders == 0,
            r@.max_leaders == max_leaders,
            r@.next_flight == 0,
            r@.ttl == ttl,
    {
        let r = ProjectionGate { entries: Vec::new(), leaders: 0, max_leaders, next_flight: 0, ttl };
        assert(entry_views(r.entries@) =~= Seq::empty());
        r
    }

    /// Index of the entry for `key`.
    fn find(&self, key: &ProjectionKey) -> (r: Option<usize>)
        ensures
            match r {
                Some(i) => i < self.entries@.len() && key_index(self@.entries, key@) == i,
                None => key_index(self@.entries, key@) == -1,
            },
    {
        let ghost s = self@.entries;
        let mut i = self.entries.len();
        assert(s.take(i as int) =~= s);
        while i > 0 && !key_eq(&self.entries[i - 1].0, key)
            invariant
                i <= self.entries@.len() == s.len(),
                s == self@.entries,
                key_index(s, key@) == key_index(s.take(i as int), key@),
            decreases i,
        {
            assert(s.take(i as int).drop_last() =~= s.take(i - 1));
            assert(s[i - 1].0 == self.entries@[i - 1].0@);
            i = i - 1;
        }
        if i == 0 {
            None
        } else {
            assert(s[i - 1].0 == self.entries@[i - 1].0@);
            Some(i - 1)
        }
    }

    /// Drops the entries expired at `now`.
    fn prune_expired(&mut self, now: u64)
        ensures
            final(self)@ == (GateView { entries: prune(old(self)@.entries, now), ..old(self)@ }),
    {
        let ghost s = self@.entries;
        let mut i = self.entries.len();
        proof {
            assert(s.skip(i as int) =~= Seq::<(ProjectionKeyView, GateEntryView)>::empty());
            assert(s.take(i as int) + prune(s.skip(i as int), now) =~= s);
        }
        while i > 0
            invariant
                i <= s.len(),
                i <= self.entries@.len(),
                s == old(self)@.entries,
                self.leaders == old(self).leaders,
                self.max_leaders == old(self).max_leaders,
                self.next_flight == old(self).next_flight,
                self.ttl == old(self).ttl,
                entry_views(self.entries@) == s.take(i as int) + prune(s.skip(i as int), now),
            decreases i,
        {
            let keep = match &self.entries[i - 1].1 {
                GateEntry::InFlight { .. } => true,
                GateEntry::Ready { expires_at, .. } => *expires_at > now,
            };
            let ghost before = self.entries@;
            proof {
                assert(s.skip(i - 1) =~= seq![s[i - 1]] + s.skip(i as int));
                lemma_prune_concat(seq![s[i - 1]], s.skip(i as int), now);
                let one = seq![s[i - 1]];
                assert(one.drop_last() =~= Seq::<(ProjectionKeyView, GateEntryView)>::empty());
                assert(prune(one.drop_last(), now) =~= Seq::<(ProjectionKeyView, GateEntryView)>::empty());
                if live(s[i - 1].1, now) {
                    assert(prune(one, now) =~= one);
                } else {
                    assert(prune(one, now) =~= Seq::<(ProjectionKeyView, GateEntryView)>::empty());
                }
                assert(entry_views(before)[i - 1] == s[i - 1]);
                assert(s.take(i as int) =~= s.take(i - 1).push(s[i - 1]));
            }
            if !keep {
                self.entries.remove(i - 1);
                proof {
                    assert(entry_views(self.entries@) =~= entry_views(before).remove(i - 1));
                    assert(entry_views(self.entries@) =~= s.take(i - 1) + prune(s.skip(i - 1), now));
                }
            } else {
                proof {
                    assert(s.take(i - 1) + prune(s.skip(i - 1), now) =~= s.take(i as int) + prune(
                        s.skip(i as int),
                        now,
                    ));
                }
            }
            i = i - 1;
        }
        proof {
            assert(s.take(0) + prune(s.skip(0), now) =~= prune(s, now)) by {
                assert(s.skip(0) =~= s);
            }
        }
    }

    /// A request for `key` at `now`.
    pub fn begin(&mut self, key: &ProjectionKey, now: u64) -> (r: GateDecision)
        requires
            old(self).wf(),
            old(self)@.next_flight < u64::MAX,
        ensures
            final(self).wf(),
            (r@, final(self)@) == begin_step(old(self)@, key@, now),
    {
        let ghost g = self@;
        proof {
            lemma_entry_of(g.entries, key@);
        }
        match self.find(key) {
            Some(i) => {
                assert(g.entries[i as int] == (self.entries@[i as int].0@, self.entries@[i as int].1@));
                match &self.entries[i].1 {
                    GateEntry::InFlight { flight } => {
                        return GateDecision::Wait(*flight);
                    },
                    GateEntry::Ready { bytes, expires_at } => {
                        if *expires_at > now {
                            return GateDecision::Ready(copy_bytes(bytes));
                        }
                    },
                }
            },
            None => {},
        }
        self.prune_expired(now);
        let ghost pruned = self@.entries;
        proof {
            lemma_prune(g.entries, now);
            assert(entry_of(pruned, key@) is None);
            lemma_entry_of(pruned, key@);
        }
        if self.leaders < self.max_leaders {
            let f = self.next_flight;
            let ghost before = self.entries@;
            self.entries.push((copy_key(key), GateEntry::InFlight { flight: f }));
            self.leaders = self.leaders + 1;
            self.next_flight = self.next_flight + 1;
            proof {
                let e = self@.entries;
                assert(e =~= pruned.push((key@, GateEntryView::InFlight { flight: f })));
                assert(e.drop_last() =~= pruned);
                assert forall|i: int, j: int| 0 <= i < j < e.len() implies #[trigger] e[i].0
                    != #[trigger] e[j].0 by {
                    if j < e.len() - 1 {
                        assert(e[i] == pruned[i] && e[j] == pruned[j]);
                    } else {
                        assert(e[i] == pruned[i]);
                    }
                }
                assert forall|i: int| 0 <= i < e.len() implies (#[trigger] e[i].1 matches GateEntryView::InFlight {
                    flight,
                } ==> flight < self@.next_flight) by {
                    if i < e.len() - 1 {
                        assert(e[i] == pruned[i]);
                        assert(g.entries.contains(pruned[i]));
                    }
                }
            }
            GateDecision::Lead(f)
        } else {
            proof {
                let e = self@.entries;
                assert forall|i: int| 0 <= i < e.len() implies (#[trigger] e[i].1 matches GateEntryView::InFlight {
                    flight,
                } ==> flight < self@.next_flight) by {
                    assert(g.entries.contains(e[i]));
                }
            }
            GateDecision::Reject
        }
    }

    /// The leader of `flight` for `key` finished at `now` with the built
    /// bytes, or with `None` when the build failed.
    pub fn finish(&mut self, key: &ProjectionKey, flight: u64, result: Option<Vec<u8>>, now: u64)
        requires
            old(self).wf(),
            entry_of(old(self)@.entries, key@) == Some(GateEntryView::InFlight { flight }),
            now + old(self)@.ttl <= u64::MAX,
        ensures
            final(self).wf(),
            final(self)@ == finish_step(
                old(self)@,
                key@,
                flight,
                match result {
                    Some(b) => Some(b@),
                    None => None,
                },
                now,
            ),
    {
        let ghost g = self@;
        proof {
            lemma_entry_of(g.entries, key@);
        }
        let i = match self.find(key) {
            Some(i) => i,
            None => {
                assert(false);
                return;
            },
        };
        assert(g.entries[i as int] == (self.entries@[i as int].0@, self.entries@[i as int].1@));
        let matches = match &self.entries[i].1 {
            GateEntry::InFlight { flight: current } => *current == flight,
            GateEntry::Ready { .. } => false,
        };
        let ghost before = self.entries@;
        proof {
            lemma_in_flight_update(
                g.entries,
                i as int,
                (key@, GateEntryView::Ready { bytes: Seq::empty(), expires_at: 0 }),
            );
        }
        if matches {
            match result {
                Some(bytes) => {
                    let expires_at = now + self.ttl;
                    let ghost b = bytes@;
                    self.entries.set(i, (copy_key(key), GateEntry::Ready { bytes, expires_at }));
                    proof {
                        let x = (key@, GateEntryView::Ready { bytes: b, expires_at });
                        lemma_in_flight_update(g.entries, i as int, x);
                        assert(self@.entries =~= g.entries.update(i as int, x));
                        let e = self@.entries;
                        assert forall|a: int, c: int| 0 <= a < c < e.len() implies #[trigger] e[a].0
                            != #[trigger] e[c].0 by {
                            assert(e[a].0 == g.entries[a].0 && e[c].0 == g.entries[c].0);
                        }
                        assert forall|a: int| 0 <= a < e.len() implies (#[trigger] e[a].1 matches GateEntryView::InFlight {
                            flight,
                        } ==> flight < self@.next_flight) by {
                            if a != i {
                                assert(e[a] == g.entries[a]);
                            }
                        }
                    }
                },
                None => {
                    self.entries.remove(i);
                    proof {
                        assert(self@.entries =~= g.entries.remove(i as int));
                        let e = self@.entries;
                        assert forall|a: int, c: int| 0 <= a < c < e.len() implies #[trigger] e[a].0
                            != #[trigger] e[c].0 by {
                            let a2 = if a < i { a } else { a + 1 };
                            let c2 = if c < i { c } else { c + 1 };
                            assert(e[a] == g.entries[a2] && e[c] == g.entries[c2]);
                        }
                        assert forall|a: int| 0 <= a < e.len() implies (#[trigger] e[a].1 matches GateEntryView::InFlight {
                            flight,
                        } ==> flight < self@.next_flight) by {
                            let a2 = if a < i { a } else { a + 1 };
                            assert(e[a] == g.entries[a2]);
                        }
                    }
                },
            }
        }
        self.leaders = self.leaders - 1;
    }

    /// The leader of `flight` for `key` went away without finishing.
    pub fn cancel(&mut self, key: &ProjectionKey, flight: u64)
        requires
            old(self).wf(),
            entry_of(old(self)@.entries, key@) == Some(GateEntryView::InFlight { flight }),
        ensures
            final(self).wf(),
            final(self)@ == cancel_step(old(self)@, key@, flight),
    {
        self.finish(key, flight, None, 0);
    }

    /// Whether the cache holds an entry (a build in flight or cached bytes)
    /// for `key`.
    pub fn has_entry(&self, key: &ProjectionKey) -> (b: bool)
        ensures
            b == entry_of(self@.entries, key@) is Some,
    {
        self.find(key).is_some()
    }

    /// How many builds are running.
    pub fn builds_in_flight(&self) -> (n: usize)
        ensures
            n == self@.leaders,
    {
        self.leaders
    }

    /// Whether a new build can still be started (the flight counter has
    /// not run out).
    pub fn can_start_flight(&self) -> (b: bool)
        ensures
            b == (self@.next_flight < u64::MAX),
    {
        self.next_flight < u64::MAX
    }
}


// -------------------------------------------------------------------- laws

proof fn lemma_entry_after_update(s: Seq<(ProjectionKeyView, GateEntryView)>, i: int, e: GateEntryView)
    requires
        keys_unique(s),
        0 <= i < s.len(),
    ensures
        keys_unique(s.update(i, (s[i].0, e))),
        entry_of(s.update(i, (s[i].0, e)), s[i].0) == Some(e),
        forall|k: ProjectionKeyView|
            k != s[i].0 ==> #[trigger] entry_of(s.update(i, (s[i].0, e)), k) == entry_of(s, k),
{
    let u = s.update(i, (s[i].0, e));
    assert forall|a: int, b: int| 0 <= a < b < u.len() implies #[trigger] u[a].0 != #[trigger] u[b].0 by {
        assert(u[a].0 == s[a].0 && u[b].0 == s[b].0);
    }
    lemma_entry_of(u, s[i].0);
    assert(u[i].0 == s[i].0);
    assert forall|k: ProjectionKeyView| k != s[i].0 implies #[trigger] entry_of(u, k) == entry_of(s, k) by {
        lemma_entry_of(u, k);
        lemma_entry_of(s, k);
        if key_index(s, k) >= 0 {
            assert(u[key_index(s, k)].0 == k);
        }
        if key_index(u, k) >= 0 {
            assert(s[key_index(u, k)].0 == k);
        }
    }
}

proof fn lemma_entry_after_remove(s: Seq<(ProjectionKeyView, GateEntryView)>, i: int)
    requires
        keys_unique(s),
        0 <= i < s.len(),
    ensures
        keys_unique(s.remove(i)),
        entry_of(s.remove(i), s[i].0) is None,
        forall|k: ProjectionKeyView| k != s[i].0 ==> #[trigger] entry_of(s.remove(i), k) == entry_of(s, k),
{
    let r = s.remove(i);
    assert forall|a: int, b: int| 0 <= a < b < r.len() implies #[trigger] r[a].0 != #[trigger] r[b].0 by {
        let a2 = if a < i { a } else { a + 1 };
        let b2 = if b < i { b } else { b + 1 };
        assert(r[a] == s[a2] && r[b] == s[b2]);
    }
    lemma_entry_of(r, s[i].0);
    assert forall|j: int| 0 <= j < r.len() implies #[trigger] r[j].0 != s[i].0 by {
        let j2 = if j < i { j } else { j + 1 };
        assert(r[j] == s[j2]);
    }
    assert forall|k: ProjectionKeyView| k != s[i].0 implies #[trigger] entry_of(r, k) == entry_of(s, k) by {
        lemma_entry_of(r, k);
        lemma_entry_of(s, k);
        if key_index(s, k) >= 0 {
            let w = key_index(s, k);
            let w2 = if w < i { w } else { w - 1 };
            assert(w != i);
            assert(r[w2] == s[w]);
        }
        if key_index(r, k) >= 0 {
            let w = key_index(r, k);
            let w2 = if w < i { w } else { w + 1 };
            assert(r[w] == s[w2]);
        }
    }
}

/// Concurrent requests for the same key share one build: once a request
/// leads a build, the next request for that key waits for it.
pub proof fn concurrent_requests_for_the_same_key_share_one_build(
    g: GateView,
    key: ProjectionKeyView,
    t1: u64,
    t2: u64,
)
    requires
        gate_wf(g),
    ensures
        begin_step(g, key, t1).0 matches GateDecisionView::Lead(f) ==> begin_step(
            begin_step(g, key, t1).1,
            key,
            t2,
        ).0 == GateDecisionView::Wait(f),
{
}

/// A finished build is served from cache strictly before its time-to-live
/// runs out, and not after.
pub proof fn cached_bytes_expire_after_the_ttl(
    g: GateView,
    key: ProjectionKeyView,
    flight: u64,
    bytes: Seq<u8>,
    t: u64,
    later: u64,
)
    requires
        gate_wf(g),
        entry_of(g.entries, key) == Some(GateEntryView::InFlight { flight }),
        t + g.ttl <= u64::MAX,
    ensures
        later < t + g.ttl ==> begin_step(finish_step(g, key, flight, Some(bytes), t), key, later).0
            == GateDecisionView::Ready(bytes),
        later >= t + g.ttl ==> !(begin_step(finish_step(g, key, flight, Some(bytes), t), key, later).0 is Ready),
{
    lemma_entry_of(g.entries, key);
    let i = key_index(g.entries, key);
    lemma_entry_after_update(g.entries, i, GateEntryView::Ready { bytes, expires_at: (t + g.ttl) as u64 });
}

/// A request that misses the cache drops every expired entry.
pub proof fn cache_miss_prunes_expired_ready_entries(g: GateView, key: ProjectionKeyView, now: u64)
    requires
        gate_wf(g),
        !(begin_step(g, key, now).0 is Ready),
        !(begin_step(g, key, now).0 is Wait),
    ensures
        forall|j: int|
            0 <= j < begin_step(g, key, now).1.entries.len() ==> live(
                #[trigger] begin_step(g, key, now).1.entries[j].1,
                now,
            ),
{
    lemma_prune(g.entries, now);
    let p = prune(g.entries, now);
    let e = begin_step(g, key, now).1.entries;
    assert forall|j: int| 0 <= j < e.len() implies live(#[trigger] e[j].1, now) by {
        if j < p.len() {
            assert(e[j] == p[j]);
        }
    }
}

/// A request for one key leaves the live entries of every other key as
/// they were: distinct keys never share results.
pub proof fn distinct_projection_keys_do_not_share_results(
    g: GateView,
    k1: ProjectionKeyView,
    k2: ProjectionKeyView,
    now: u64,
)
    requires
        gate_wf(g),
        k1 != k2,
    ensures
        entry_of(g.entries, k2) is Some && live(entry_of(g.entries, k2).unwrap(), now) ==> entry_of(
            begin_step(g, k1, now).1.entries,
            k2,
        ) == entry_of(g.entries, k2),
        entry_of(g.entries, k2) is None ==> entry_of(begin_step(g, k1, now).1.entries, k2) is None,
{
    assert(keys_unique(g.entries));
    lemma_prune(g.entries, now);
    let p = prune(g.entries, now);
    assert(entry_of(p, k2) == match entry_of(g.entries, k2) {
        Some(e) => if live(e, now) {
            Some(e)
        } else {
            None
        },
        None => None,
    });
    let pushed = p.push((k1, GateEntryView::InFlight { flight: g.next_flight as u64 }));
    assert(pushed.drop_last() =~= p);
    assert(key_index(pushed, k2) == key_index(p, k2));
    lemma_entry_of(p, k2);
    if key_index(p, k2) >= 0 {
        assert(pushed[key_index(p, k2)] == p[key_index(p, k2)]);
    }
    assert(entry_of(pushed, k2) == entry_of(p, k2));
    let r = begin_step(g, k1, now).1;
    match entry_of(g.entries, k1) {
        Some(GateEntryView::InFlight { .. }) => {
            assert(r == g);
        },
        Some(GateEntryView::Ready { expires_at, .. }) => {
            if expires_at > now {
                assert(r == g);
            } else if g.leaders < g.max_leaders {
                assert(r.entries == pushed);
            } else {
                assert(r.entries == p);
            }
        },
        None => {
            if g.leaders < g.max_leaders {
                assert(r.entries == pushed);
            } else {
                assert(r.entries == p);
            }
        },
    }
}

/// When every build slot is taken, a request for a key with a build in
/// flight still waits for it, and a request that would start a build is
/// refused.
pub proof fn saturated_gate_rejects_new_keys_but_allows_existing_waiters(
    g: GateView,
    key: ProjectionKeyView,
    now: u64,
)
    requires
        gate_wf(g),
        g.leaders == g.max_leaders,
    ensures
        entry_of(g.entries, key) matches Some(GateEntryView::InFlight { flight }) ==> begin_step(
            g,
            key,
            now,
        ).0 == GateDecisionView::Wait(flight),
        (entry_of(g.entries, key) is None || !live(entry_of(g.entries, key).unwrap(), now))
            ==> begin_step(g, key, now).0 == GateDecisionView::Reject,
{
}

/// A leader that goes away without finishing releases its key and its
/// slot, so the next request for the key leads a new build.
pub proof fn cancelled_leader_releases_the_key_and_waiters(
    g: GateView,
    key: ProjectionKeyView,
    flight: u64,
    now: u64,
)
    requires
        gate_wf(g),
        entry_of(g.entries, key) == Some(GateEntryView::InFlight { flight }),
    ensures
        entry_of(cancel_step(g, key, flight).entries, key) is None,
        cancel_step(g, key, flight).leaders + 1 == g.leaders,
        begin_step(cancel_step(g, key, flight), key, now).0 == GateDecisionView::Lead(
            g.next_flight as u64,
        ),
{
    lemma_entry_of(g.entries, key);
    lemma_entry_after_remove(g.entries, key_index(g.entries, key));
    lemma_in_flight_update(g.entries, key_index(g.entries, key), (key, GateEntryView::InFlight { flight }));
}

/// A failed build releases its key and slot for a retry: nothing is
/// cached, and the next request leads a new build.
pub proof fn failed_leader_releases_the_key_for_retry(
    g: GateView,
    key: ProjectionKeyView,
    flight: u64,
    now: u64,
    later: u64,
)
    requires
        gate_wf(g),
        entry_of(g.entries, key) == Some(GateEntryView::InFlight { flight }),
    ensures
        entry_of(finish_step(g, key, flight, None, now).entries, key) is None,
        begin_step(finish_step(g, key, flight, None, now), key, later).0 == GateDecisionView::Lead(
            g.next_flight as u64,
        ),
{
    lemma_entry_of(g.entries, key);
    lemma_entry_after_remove(g.entries, key_index(g.entries, key));
    lemma_in_flight_update(g.entries, key_index(g.entries, key), (key, GateEntryView::InFlight { flight }));
}

/// The decisions for requests on one key at the given instants, with no
/// build finishing in between, and the state they leave.
pub open spec fn begin_all(g: GateView, key: ProjectionKeyView, times: Seq<u64>) -> (Seq<GateDecisionView>, GateView)
    decreases times.len(),
{
    if times.len() == 0 {
        (Seq::empty(), g)
    } else {
        let first = begin_step(g, key, times[0]);
        let rest = begin_all(first.1, key, times.drop_first());
        (seq![first.0] + rest.0, rest.1)
    }
}

proof fn lemma_waiters_join(g: GateView, key: ProjectionKeyView, times: Seq<u64>, f: u64)
    requires
        entry_of(g.entries, key) == Some(GateEntryView::InFlight { flight: f }),
    ensures
        begin_all(g, key, times).1 == g,
        begin_all(g, key, times).0.len() == times.len(),
        forall|i: int| 0 <= i < times.len() ==> #[trigger] begin_all(g, key, times).0[i] == GateDecisionView::Wait(f),
    decreases times.len(),
{
    if times.len() > 0 {
        lemma_waiters_join(g, key, times.drop_first(), f);
        let rest = begin_all(g, key, times.drop_first()).0;
        assert forall|i: int| 0 <= i < times.len() implies #[trigger] begin_all(g, key, times).0[i]
            == GateDecisionView::Wait(f) by {
            if i > 0 {
                assert(begin_all(g, key, times).0[i] == rest[i - 1]);
            }
        }
    }
}

/// However many requests for a key arrive while its build is in flight,
/// exactly one build runs: the first request leads flight `f`, every later
/// one waits for that same flight, and the flight stays in flight until its
/// leader finishes. All of them then receive `flight_result` of its outcome.
pub proof fn one_build_serves_every_request_of_a_flight(g: GateView, key: ProjectionKeyView, times: Seq<u64>)
    requires
        gate_wf(g),
        times.len() > 0,
        begin_step(g, key, times[0]).0 is Lead,
    ensures
        ({
            let (decisions, last) = begin_all(g, key, times);
            let f = begin_step(g, key, times[0]).0->Lead_0;
            &&& decisions.len() == times.len()
            &&& decisions[0] == GateDecisionView::Lead(f)
            &&& forall|i: int| 1 <= i < times.len() ==> #[trigger] decisions[i] == GateDecisionView::Wait(f)
            &&& entry_of(last.entries, key) == Some(GateEntryView::InFlight { flight: f })
            &&& last.leaders == g.leaders + 1
        }),
{
    let f = begin_step(g, key, times[0]).0->Lead_0;
    let g1 = begin_step(g, key, times[0]).1;
    concurrent_requests_for_the_same_key_share_one_build(g, key, times[0], times[0]);
    assert(begin_step(g1, key, times[0]).0 == GateDecisionView::Wait(f));
    assert(entry_of(g1.entries, key) == Some(GateEntryView::InFlight { flight: f }));
    lemma_waiters_join(g1, key, times.drop_first(), f);
    let rest = begin_all(g1, key, times.drop_first()).0;
    assert forall|i: int| 1 <= i < times.len() implies #[trigger] begin_all(g, key, times).0[i]
        == GateDecisionView::Wait(f) by {
        assert(begin_all(g, key, times).0[i] == rest[i - 1]);
    }
}

} // verus!
