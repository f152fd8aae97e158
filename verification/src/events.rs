//! Agent event pages and streams: window limits, where a resumed stream
//! starts, page bounds, and which live events a stream forwards.
use vstd::prelude::*;
use crate::json::JsonValue;
use crate::errors::{event_seq_not_found, is_cursor_not_found, AgentEventRecoveryWindow, HttpError};
use crate::text::{chars_eq_str, chars_of, trim_chars, trim};
use crate::types::EventPageOrder;

verus! {

pub const DEFAULT_EVENT_STREAM_WINDOW: usize = 128;

pub const MAX_EVENT_STREAM_WINDOW: usize = 512;

/// Query of an event page. (Filtering by operator display level is not
/// part of this library.)
#[derive(Debug, Clone)]
pub struct EventsQuery {
    pub before_seq: Option<u64>,
    pub after_seq: Option<u64>,
    pub limit: Option<usize>,
    pub order: Option<EventPageOrder>,
    pub event_kind: Option<String>,
}

/// The requested window size, defaulted and clamped to `1..=512`.
pub open spec fn window_limit(limit: Option<usize>) -> usize {
    let l = match limit {
        Some(l) => l,
        None => DEFAULT_EVENT_STREAM_WINDOW,
    };
    if l < 1 {
        1
    } else if l > MAX_EVENT_STREAM_WINDOW {
        MAX_EVENT_STREAM_WINDOW
    } else {
        l
    }
}

/// How many events a page or stream window holds.
pub fn event_window_limit(limit: Option<usize>) -> (r: usize)
    ensures
        r == window_limit(limit),
        1 <= r <= MAX_EVENT_STREAM_WINDOW,
{
    let l = match limit {
        Some(l) => l,
        None => DEFAULT_EVENT_STREAM_WINDOW,
    };
    if l < 1 {
        1
    } else if l > MAX_EVENT_STREAM_WINDOW {
        MAX_EVENT_STREAM_WINDOW
    } else {
        l
    }
}

/// The limit and order of an event page: newest first unless asked.
pub fn events_page_params(query: &EventsQuery) -> (r: (usize, EventPageOrder))
    ensures
        r.0 == window_limit(query.limit),
        r.1 == match query.order {
            Some(o) => o,
            None => EventPageOrder::Desc,
        },
{
    let order = match query.order {
        Some(o) => o,
        None => EventPageOrder::Desc,
    };
    (event_window_limit(query.limit), order)
}

/// Index of the first event whose sequence is `seq`, or `seqs.len()`.
pub open spec fn position_of(seqs: Seq<u64>, seq: u64) -> int
    decreases seqs.len(),
{
    if seqs.len() == 0 {
        0
    } else if seqs[0] == seq {
        0
    } else {
        1 + position_of(seqs.drop_first(), seq)
    }
}

proof fn lemma_position_of(seqs: Seq<u64>, seq: u64)
    ensures
        0 <= position_of(seqs, seq) <= seqs.len(),
        position_of(seqs, seq) < seqs.len() ==> seqs[position_of(seqs, seq)] == seq,
        forall|j: int| 0 <= j < position_of(seqs, seq) ==> seqs[j] != seq,
    decreases seqs.len(),
{
    if seqs.len() > 0 && seqs[0] != seq {
        lemma_position_of(seqs.drop_first(), seq);
        assert forall|j: int| 0 <= j < position_of(seqs, seq) implies seqs[j] != seq by {
            if j > 0 {
                assert(seqs[j] == seqs.drop_first()[j - 1]);
            }
        }
    }
}

/// Where a resumed stream starts in the recent events (given by their
/// sequences, oldest first): after the event `after_seq` names, at the
/// start for `after_seq = 0`, past the end when no cursor is given; `None`
/// when the cursor is not among the recent events.
pub open spec fn resume_start(seqs: Seq<u64>, after_seq: Option<u64>) -> Option<int> {
    match after_seq {
        None => Some(seqs.len() as int),
        Some(s) => if s == 0 {
            Some(0)
        } else if position_of(seqs, s) < seqs.len() {
            Some(position_of(seqs, s) + 1)
        } else {
            None
        },
    }
}

/// The index of the first recent event a resumed stream replays, or the
/// `cursor_not_found` error when `after_seq` is outside the recent events.
pub fn initial_buffered_start(
    event_seqs: &Vec<u64>,
    after_seq: Option<u64>,
    recovery_window: &AgentEventRecoveryWindow,
) -> (r: Result<usize, HttpError>)
    ensures
        match (r, resume_start(event_seqs@, after_seq)) {
            (Ok(i), Some(k)) => i == k,
            (Err(e), None) => after_seq matches Some(s) && is_cursor_not_found(e, s, *recovery_window),
            _ => false,
        },
        r matches Ok(i) ==> i <= event_seqs@.len(),
{
    proof {
        lemma_position_of(event_seqs@, after_seq.unwrap_or(0));
    }
    match after_seq {
        None => Ok(event_seqs.len()),
        Some(s) => {
            if s == 0 {
                return Ok(0);
            }
            let mut i: usize = 0;
            assert(event_seqs@.skip(0) =~= event_seqs@);
            while i < event_seqs.len() && event_seqs[i] != s
                invariant
                    i <= event_seqs@.len(),
                    position_of(event_seqs@, s) == i + position_of(event_seqs@.skip(i as int), s),
                decreases event_seqs.len() - i,
            {
                assert(event_seqs@.skip(i as int).drop_first() =~= event_seqs@.skip(i + 1));
                i = i + 1;
            }
            if i < event_seqs.len() {
                Ok(i + 1)
            } else {
                let e = event_seq_not_found(s, recovery_window);
                Err(e)
            }
        },
    }
}


fn position_in(event_seqs: &Vec<u64>, s: u64) -> (i: usize)
    ensures
        i == position_of(event_seqs@, s),
{
    let mut i: usize = 0;
    assert(event_seqs@.skip(0) =~= event_seqs@);
    proof {
        lemma_position_of(event_seqs@, s);
    }
    while i < event_seqs.len() && event_seqs[i] != s
        invariant
            i <= event_seqs@.len(),
            position_of(event_seqs@, s) == i + position_of(event_seqs@.skip(i as int), s),
        decreases event_seqs.len() - i,
    {
        assert(event_seqs@.skip(i as int).drop_first() =~= event_seqs@.skip(i + 1));
        i = i + 1;
    }
    i
}

/// Where a live stream picks up in a refreshed window of recent events
/// (given by their sequences, oldest first): after the last event it sent,
/// at the start when it has sent none; `None` when that event is no longer
/// in the window.
pub open spec fn refresh_start(seqs: Seq<u64>, last_seen_seq: u64) -> Option<int> {
    if last_seen_seq == 0 {
        Some(0)
    } else if position_of(seqs, last_seen_seq) < seqs.len() {
        Some(position_of(seqs, last_seen_seq) + 1)
    } else {
        None
    }
}

/// The index from which a refreshed window of recent events is buffered,
/// or `Err(last_seen_seq)` when the stream's last event fell out of it.
pub fn refresh_buffered_start(event_seqs: &Vec<u64>, last_seen_seq: u64) -> (r: Result<usize, u64>)
    ensures
        match refresh_start(event_seqs@, last_seen_seq) {
            Some(k) => r == Ok::<usize, u64>(k as usize),
            None => r == Err::<usize, u64>(last_seen_seq),
        },
        refresh_start(event_seqs@, last_seen_seq) == resume_start(event_seqs@, Some(last_seen_seq)),
        r matches Ok(i) ==> i <= event_seqs@.len(),
{
    if last_seen_seq == 0 {
        return Ok(0);
    }
    let i = position_in(event_seqs, last_seen_seq);
    proof {
        lemma_position_of(event_seqs@, last_seen_seq);
    }
    if i < event_seqs.len() {
        Ok(i + 1)
    } else {
        Err(last_seen_seq)
    }
}

/// The sequence of the oldest event of a page listed in `order`.
pub open spec fn oldest_of(seqs: Seq<u64>, order: EventPageOrder) -> Option<u64> {
    if seqs.len() == 0 {
        None
    } else {
        match order {
            EventPageOrder::Asc => Some(seqs[0]),
            EventPageOrder::Desc => Some(seqs.last()),
        }
    }
}

/// The sequence of the newest event of a page listed in `order`.
pub open spec fn newest_of(seqs: Seq<u64>, order: EventPageOrder) -> Option<u64> {
    if seqs.len() == 0 {
        None
    } else {
        match order {
            EventPageOrder::Asc => Some(seqs.last()),
            EventPageOrder::Desc => Some(seqs[0]),
        }
    }
}

/// The oldest sequence on a page whose events (given by their sequences)
/// are listed in `order`.
pub fn oldest_seq(event_seqs: &Vec<u64>, order: EventPageOrder) -> (r: Option<u64>)
    ensures
        r == oldest_of(event_seqs@, order),
{
    if event_seqs.len() == 0 {
        return None;
    }
    match order {
        EventPageOrder::Asc => Some(event_seqs[0]),
        EventPageOrder::Desc => Some(event_seqs[event_seqs.len() - 1]),
    }
}

/// The newest sequence on a page whose events are listed in `order`.
pub fn newest_seq(event_seqs: &Vec<u64>, order: EventPageOrder) -> (r: Option<u64>)
    ensures
        r == newest_of(event_seqs@, order),
{
    if event_seqs.len() == 0 {
        return None;
    }
    match order {
        EventPageOrder::Asc => Some(event_seqs[event_seqs.len() - 1]),
        EventPageOrder::Desc => Some(event_seqs[0]),
    }
}

// ------------------------------------------------------------- live stream

/// Whether a live event goes out on an agent's stream: it belongs to that
/// agent and is newer than everything already sent.
pub open spec fn forwards(last_sent_seq: u64, stream_agent_id: Seq<char>, event_agent_id: Option<Seq<char>>, event_seq: u64) -> bool {
    event_agent_id == Some(stream_agent_id) && event_seq > last_sent_seq
}

pub open spec fn opt_str(o: Option<&str>) -> Option<Seq<char>> {
    match o {
        Some(s) => Some(s@),
        None => None,
    }
}

/// One step of an agent's live stream: whether the published event is
/// forwarded, and the last sequence sent afterwards.
pub fn live_event_step(
    last_sent_seq: u64,
    stream_agent_id: &str,
    event_agent_id: Option<&str>,
    event_seq: u64,
) -> (r: (bool, u64))
    ensures
        r.0 == forwards(last_sent_seq, stream_agent_id@, opt_str(event_agent_id), event_seq),
        r.1 == if r.0 {
            event_seq
        } else {
            last_sent_seq
        },
{
    let same_agent = match event_agent_id {
        Some(a) => {
            let v = chars_of(a);
            chars_eq_str(&v, stream_agent_id)
        },
        None => false,
    };
    if same_agent && event_seq > last_sent_seq {
        (true, event_seq)
    } else {
        (false, last_sent_seq)
    }
}

/// The last sequence sent after replaying a buffered event.
pub fn buffered_event_step(last_sent_seq: u64, event_seq: u64) -> (r: u64)
    ensures
        r == if event_seq > last_sent_seq {
            event_seq
        } else {
            last_sent_seq
        },
{
    if event_seq > last_sent_seq {
        event_seq
    } else {
        last_sent_seq
    }
}

/// The sequences a live stream forwards from the published events
/// `(agent, seq)`, starting after `last_sent_seq`.
pub open spec fn forwarded(last_sent_seq: u64, stream_agent_id: Seq<char>, published: Seq<(Option<Seq<char>>, u64)>) -> Seq<u64>
    decreases published.len(),
{
    if published.len() == 0 {
        Seq::empty()
    } else {
        let (agent, seq) = published[0];
        if forwards(last_sent_seq, stream_agent_id, agent, seq) {
            seq![seq] + forwarded(seq, stream_agent_id, published.drop_first())
        } else {
            forwarded(last_sent_seq, stream_agent_id, published.drop_first())
        }
    }
}

/// A live stream never sends an event twice or out of order: what it
/// forwards is strictly increasing and newer than what was sent before.
pub proof fn live_stream_forwards_strictly_increasing(
    last_sent_seq: u64,
    stream_agent_id: Seq<char>,
    published: Seq<(Option<Seq<char>>, u64)>,
)
    ensures
        forall|i: int|
            0 <= i < forwarded(last_sent_seq, stream_agent_id, published).len() ==> last_sent_seq
                < #[trigger] forwarded(last_sent_seq, stream_agent_id, published)[i],
        forall|i: int, j: int|
            0 <= i < j < forwarded(last_sent_seq, stream_agent_id, published).len() ==> forwarded(
                last_sent_seq,
                stream_agent_id,
                published,
            )[i] < forwarded(last_sent_seq, stream_agent_id, published)[j],
    decreases published.len(),
{
    if published.len() > 0 {
        let (agent, seq) = published[0];
        let rest = published.drop_first();
        if forwards(last_sent_seq, stream_agent_id, agent, seq) {
            live_stream_forwards_strictly_increasing(seq, stream_agent_id, rest);
            let f = forwarded(last_sent_seq, stream_agent_id, published);
            let t = forwarded(seq, stream_agent_id, rest);
            assert(f =~= seq![seq] + t);
            assert forall|i: int| 0 <= i < f.len() implies last_sent_seq < #[trigger] f[i] by {
                if i > 0 {
                    assert(f[i] == t[i - 1]);
                }
            }
            assert forall|i: int, j: int| 0 <= i < j < f.len() implies f[i] < f[j] by {
                assert(f[j] == t[j - 1]);
                if i > 0 {
                    assert(f[i] == t[i - 1]);
                }
            }
        } else {
            live_stream_forwards_strictly_increasing(last_sent_seq, stream_agent_id, rest);
            assert(forwarded(last_sent_seq, stream_agent_id, published) == forwarded(
                last_sent_seq,
                stream_agent_id,
                rest,
            ));
        }
    }
}

// ---------------------------------------------------------- event payloads

/// Provider diagnostics kept in the durable audit record but left out of
/// the public event payload.
pub open spec fn private_payload_key(key: Seq<char>) -> bool {
    ||| key == "prompt_cache_key"@
    ||| key == "context_fingerprint"@
    ||| key == "compression_epoch"@
    ||| key == "provider_request_id"@
    ||| key == "provider_message_id"@
    ||| key == "provider_request_diagnostics"@
    ||| key == "provider_attempt_timeline"@
    ||| key == "only_sleep_tools"@
}

/// Whether a payload field stays out of the public event contract.
pub fn is_private_event_payload_key(key: &str) -> (b: bool)
    ensures
        b == private_payload_key(key@),
{
    let k = chars_of(key);
    chars_eq_str(&k, "prompt_cache_key") || chars_eq_str(&k, "context_fingerprint")
        || chars_eq_str(&k, "compression_epoch") || chars_eq_str(&k, "provider_request_id")
        || chars_eq_str(&k, "provider_message_id") || chars_eq_str(
        &k,
        "provider_request_diagnostics",
    ) || chars_eq_str(&k, "provider_attempt_timeline") || chars_eq_str(&k, "only_sleep_tools")
}

/// Keeps a payload member whose key is not private.
pub open spec fn public_member() -> spec_fn((String, JsonValue)) -> bool {
    |m: (String, JsonValue)| !private_payload_key(m.0@)
}

/// An event payload for the public event contract: an object loses exactly
/// its private members (provider diagnostics), keeping the others in
/// order; any other value is kept as it is.
pub fn public_event_payload(payload: JsonValue) -> (r: JsonValue)
    ensures
        match payload {
            JsonValue::Object(members) => r matches JsonValue::Object(kept) && kept@ == members@.filter(
                public_member(),
            ),
            _ => r == payload,
        },
{
    match payload {
        JsonValue::Object(members) => {
            let ghost all = members@;
            let ghost pred = public_member();
            let n: usize = members.len();
            let mut rest = members;
            let mut kept: Vec<(String, JsonValue)> = Vec::new();
            assert(all.take(0).filter(pred) =~= Seq::<(String, JsonValue)>::empty()) by {
                reveal(Seq::filter);
            }
            assert(all.skip(0) =~= all);
            let mut i: usize = 0;
            while rest.len() > 0
                invariant
                    i <= all.len(),
                    all.len() == n,
                    rest@ == all.skip(i as int),
                    kept@ == all.take(i as int).filter(pred),
                    pred == public_member(),
                decreases rest.len(),
            {
                let m = rest.remove(0);
                proof {
                    assert(m == all[i as int]);
                    assert(rest@ =~= all.skip(i + 1));
                    assert(all.take(i + 1).drop_last() =~= all.take(i as int));
                    assert(all.take(i + 1).last() == m);
                    reveal(Seq::filter);
                }
                if !is_private_event_payload_key(m.0.as_str()) {
                    kept.push(m);
                }
                i = i + 1;
            }
            assert(all.take(all.len() as int) =~= all);
            JsonValue::Object(kept)
        },
        other => other,
    }
}

/// The summary shown for an event: its `summary` field when that has more
/// than whitespace, else its kind.
pub open spec fn fallback_summary(summary: Option<Seq<char>>, kind: Seq<char>) -> Seq<char> {
    match summary {
        Some(s) => if trim(s).len() > 0 {
            s
        } else {
            kind
        },
        None => kind,
    }
}

/// The summary shown for an event with the given `summary` field (`None`
/// when absent or not a string) and kind.
pub fn event_fallback_summary(summary: Option<&str>, kind: &str) -> (r: String)
    ensures
        r@ == fallback_summary(opt_str(summary), kind@),
{
    match summary {
        Some(s) => {
            let v = chars_of(s);
            let t = trim_chars(&v);
            if t.len() > 0 {
                String::from_str(s)
            } else {
                String::from_str(kind)
            }
        },
        None => String::from_str(kind),
    }
}

/// The event-log epoch of an envelope: the event's own, or the stream's
/// when the event carries none.
pub fn envelope_event_log_epoch(event_epoch: &str, stream_epoch: &str) -> (r: String)
    ensures
        r@ == if event_epoch@.len() == 0 {
            stream_epoch@
        } else {
            event_epoch@
        },
{
    let v = chars_of(event_epoch);
    if v.len() == 0 {
        String::from_str(stream_epoch)
    } else {
        String::from_str(event_epoch)
    }
}

} // verus!
