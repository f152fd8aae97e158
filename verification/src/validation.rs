//! Input normalization shared by the handlers: blank-string handling,
//! search parameters and agent id lists.
use vstd::prelude::*;
use crate::errors::{bad_request, plain_error, HttpError, STATUS_BAD_REQUEST};
use crate::text::{chars_eq, chars_eq_str, chars_of, string_from_chars, trim, trim_bounds, trim_chars};
use crate::types::{SearchRequest, SEARCH_DEFAULT_LIMIT, SEARCH_MAX_LIMIT};

verus! {

/// `Some(value)` unless the value is blank.
pub fn non_empty_opt(value: String) -> (r: Option<String>)
    ensures
        trim(value@).len() == 0 ==> r is None,
        trim(value@).len() != 0 ==> r == Some(value),
{
    let v = chars_of(value.as_str());
    let t = trim_chars(&v);
    if t.len() == 0 {
        None
    } else {
        Some(value)
    }
}

/// The trimmed value, `None` when it is blank.
pub fn non_empty_str(value: &str) -> (r: Option<&str>)
    ensures
        trim(value@).len() == 0 ==> r is None,
        trim(value@).len() != 0 ==> (r matches Some(s) && s@ == trim(value@)),
{
    let v = chars_of(value);
    let (a, b) = trim_bounds(&v);
    if a == b {
        None
    } else {
        Some(value.substring_char(a, b))
    }
}

/// Trims an optional string, dropping it when it is blank.
pub fn normalize_optional_non_empty(value: Option<String>) -> (r: Option<String>)
    ensures
        match value {
            None => r is None,
            Some(s) => if trim(s@).len() == 0 {
                r is None
            } else {
                r matches Some(t) && t@ == trim(s@)
            },
        },
{
    match value {
        None => None,
        Some(inner) => {
            let v = chars_of(inner.as_str());
            let t = trim_chars(&v);
            if t.len() == 0 {
                None
            } else {
                Some(string_from_chars(&t))
            }
        },
    }
}

/// Accepted `reasoning_effort` values.
pub open spec fn reasoning_effort_ok(v: Seq<char>) -> bool {
    v == "low"@ || v == "medium"@ || v == "high"@ || v == "xhigh"@
}

/// The message for an invalid `reasoning_effort`.
pub open spec fn reasoning_effort_message(v: Seq<char>) -> Seq<char> {
    "invalid reasoning_effort '"@ + v + "'; must be one of low, medium, high, xhigh"@
}

/// Accepts `low`, `medium`, `high` and `xhigh`; anything else is a bad request.
pub fn validate_reasoning_effort(value: &str) -> (r: Result<(), HttpError>)
    ensures
        reasoning_effort_ok(value@) <==> r is Ok,
        r matches Err(e) ==> plain_error(e, STATUS_BAD_REQUEST, reasoning_effort_message(value@)),
{
    let v = chars_of(value);
    if chars_eq_str(&v, "low") || chars_eq_str(&v, "medium") || chars_eq_str(&v, "high")
        || chars_eq_str(&v, "xhigh") {
        Ok(())
    } else {
        let mut m = String::from_str("invalid reasoning_effort '");
        crate::text::push_str(&mut m, value);
        crate::text::push_str(&mut m, "'; must be one of low, medium, high, xhigh");
        Err(bad_request(m))
    }
}

/// The characters of each string.
pub open spec fn views(v: Seq<String>) -> Seq<Seq<char>> {
    v.map_values(|s: String| s@)
}

/// Agent ids trimmed and deduplicated in first-seen order; `None` when
/// some id is blank.
pub open spec fn normalized_ids(ids: Seq<Seq<char>>) -> Option<Seq<Seq<char>>>
    decreases ids.len(),
{
    if ids.len() == 0 {
        Some(Seq::empty())
    } else {
        match normalized_ids(ids.drop_last()) {
            None => None,
            Some(prev) => {
                let t = trim(ids.last());
                if t.len() == 0 {
                    None
                } else if prev.contains(t) {
                    Some(prev)
                } else {
                    Some(prev.push(t))
                }
            },
        }
    }
}

pub proof fn lemma_normalized_ids_none_stays(ids: Seq<Seq<char>>, i: int, j: int)
    requires
        0 <= i <= j <= ids.len(),
        normalized_ids(ids.take(i)) is None,
    ensures
        normalized_ids(ids.take(j)) is None,
    decreases j - i,
{
    if i < j {
        lemma_normalized_ids_none_stays(ids, i, j - 1);
        assert(ids.take(j).drop_last() =~= ids.take(j - 1));
    }
}

pub proof fn lemma_normalized_ids_unique(ids: Seq<Seq<char>>)
    requires
        normalized_ids(ids) is Some,
    ensures
        normalized_ids(ids).unwrap().no_duplicates(),
        forall|k: int|
            0 <= k < normalized_ids(ids).unwrap().len() ==> #[trigger] normalized_ids(
                ids,
            ).unwrap()[k].len() > 0,
    decreases ids.len(),
{
    if ids.len() > 0 {
        lemma_normalized_ids_unique(ids.drop_last());
    }
}

/// Trims each requested agent id, rejects blank ids, and drops repeats
/// (first occurrence wins); no list means no filter.
pub fn normalize_search_agent_ids(agent_ids: Option<Vec<String>>) -> (r: Result<Vec<String>, HttpError>)
    ensures
        match agent_ids {
            None => r matches Ok(v) && v@.len() == 0,
            Some(ids) => match normalized_ids(views(ids@)) {
                None => r matches Err(e) && plain_error(
                    e,
                    STATUS_BAD_REQUEST,
                    "agent_ids must not contain empty agent ids"@,
                ),
                Some(n) => r matches Ok(v) && views(v@) == n,
            },
        },
        r matches Ok(v) ==> views(v@).no_duplicates(),
{
    let ids = match agent_ids {
        None => {
            return Ok(Vec::new());
        },
        Some(ids) => ids,
    };
    let ghost iv = views(ids@);
    let mut normalized: Vec<String> = Vec::new();
    let mut i: usize = 0;
    assert(iv.take(0) =~= Seq::<Seq<char>>::empty());
    while i < ids.len()
        invariant
            i <= ids@.len(),
            iv == views(ids@),
            agent_ids == Some(ids),
            normalized_ids(iv.take(i as int)) == Some(views(normalized@)),
        decreases ids.len() - i,
    {
        let raw = chars_of(ids[i].as_str());
        let t = trim_chars(&raw);
        assert(iv.take(i + 1).drop_last() =~= iv.take(i as int));
        assert(iv.take(i + 1).last() == ids@[i as int]@);
        if t.len() == 0 {
            proof {
                lemma_normalized_ids_none_stays(iv, i + 1, iv.len() as int);
                assert(iv.take(iv.len() as int) =~= iv);
            }
            return Err(bad_request(String::from_str("agent_ids must not contain empty agent ids")));
        }
        let mut found = false;
        let mut k: usize = 0;
        while k < normalized.len()
            invariant
                k <= normalized@.len(),
                found == exists|j: int| 0 <= j < k && views(normalized@)[j] == t@,
            decreases normalized.len() - k,
        {
            let e = chars_of(normalized[k].as_str());
            assert(views(normalized@)[k as int] == normalized@[k as int]@);
            if chars_eq(&e, &t) {
                found = true;
            }
            k = k + 1;
        }
        proof {
            if views(normalized@).contains(t@) {
                let j = choose|j: int| 0 <= j < views(normalized@).len() && views(normalized@)[j] == t@;
                assert(0 <= j < k);
            }
        }
        if !found {
            let s = string_from_chars(&t);
            let ghost prev = normalized@;
            normalized.push(s);
            assert(views(normalized@) =~= views(prev).push(t@));
        }
        i = i + 1;
    }
    proof {
        assert(iv.take(iv.len() as int) =~= iv);
        lemma_normalized_ids_unique(iv);
    }
    Ok(normalized)
}

/// The message for a blank search query.
pub open spec fn empty_query_message() -> Seq<char> {
    "query must not be empty"@
}

/// The trimmed query and the limit (default 20, clamped to `1..=50`) of a
/// search; a blank query is a bad request.
pub fn search_query_and_limit(request: &SearchRequest) -> (r: Result<(String, usize), HttpError>)
    ensures
        trim(request.query@).len() == 0 <==> r is Err,
        r matches Err(e) ==> plain_error(e, STATUS_BAD_REQUEST, empty_query_message()),
        r matches Ok(p) ==> {
            &&& p.0@ == trim(request.query@)
            &&& p.1 == ({
                let l = match request.limit {
                    Some(l) => l,
                    None => SEARCH_DEFAULT_LIMIT,
                };
                if l < 1 {
                    1
                } else if l > SEARCH_MAX_LIMIT {
                    SEARCH_MAX_LIMIT
                } else {
                    l
                }
            })
        },
{
    let v = chars_of(request.query.as_str());
    let t = trim_chars(&v);
    if t.len() == 0 {
        return Err(bad_request(String::from_str("query must not be empty")));
    }
    let l = match request.limit {
        Some(l) => l,
        None => SEARCH_DEFAULT_LIMIT,
    };
    let limit = if l < 1 {
        1
    } else if l > SEARCH_MAX_LIMIT {
        SEARCH_MAX_LIMIT
    } else {
        l
    };
    Ok((string_from_chars(&t), limit))
}

// ------------------------------------------------------- search results

/// A search hit, with the kind of source it came from.
#[derive(Debug, Clone, PartialEq, Eq)]
pub struct SearchHit<T> {
    pub kind: String,
    pub hit: T,
}

/// Whether `kind` is one of the requested `types`.
pub open spec fn kind_requested(types: Seq<String>, kind: Seq<char>) -> bool {
    exists|i: int| 0 <= i < types.len() && (#[trigger] types[i])@ == kind
}

/// Keeps a search hit when its kind was requested.
pub open spec fn hit_requested<T>(types: Seq<String>) -> spec_fn(SearchHit<T>) -> bool {
    |h: SearchHit<T>| kind_requested(types, h.kind@)
}

fn kind_listed(types: &Vec<String>, kind: &str) -> (b: bool)
    ensures
        b == kind_requested(types@, kind@),
{
    let k = chars_of(kind);
    let mut i: usize = 0;
    while i < types.len()
        invariant
            i <= types@.len(),
            k@ == kind@,
            forall|j: int| 0 <= j < i ==> (#[trigger] types@[j])@ != kind@,
        decreases types.len() - i,
    {
        let t = chars_of(types[i].as_str());
        if chars_eq(&t, &k) {
            return true;
        }
        i = i + 1;
    }
    false
}

/// The hits whose kind is one of `types`, in order; all of them when no
/// type is given.
pub fn filter_search_results<T>(results: Vec<SearchHit<T>>, types: &Vec<String>) -> (r: Vec<SearchHit<T>>)
    ensures
        types@.len() == 0 ==> r@ == results@,
        types@.len() != 0 ==> r@ == results@.filter(hit_requested::<T>(types@)),
{
    if types.len() == 0 {
        return results;
    }
    let ghost pred = hit_requested::<T>(types@);
    let ghost all = results@;
    let mut kept: Vec<SearchHit<T>> = Vec::new();
    let n: usize = results.len();
    let mut rest = results;
    assert(all.take(0).filter(pred) =~= Seq::<SearchHit<T>>::empty()) by {
        reveal(Seq::filter);
    }
    assert(all.skip(0) =~= all);
    let mut i: usize = 0;
    while rest.len() > 0
        invariant
            i <= all.len(),
            all.len() == n,
            rest@ == all.skip(i as int),
            kept@ == all.take(i as int).filter(pred),
            pred == hit_requested::<T>(types@),
        decreases rest.len(),
    {
        let h = rest.remove(0);
        proof {
            assert(h == all[i as int]);
            assert(rest@ =~= all.skip(i + 1));
            assert(all.take(i + 1).drop_last() =~= all.take(i as int));
            assert(all.take(i + 1).last() == h);
            reveal(Seq::filter);
        }
        if kind_listed(types, h.kind.as_str()) {
            kept.push(h);
        }
        i = i + 1;
    }
    assert(all.take(all.len() as int) =~= all);
    kept
}

// -------------------------------------------- operator transport delivery

/// How the runtime authenticates its deliveries to an operator transport.
#[derive(Debug, Clone, Copy, PartialEq, Eq, Structural)]
pub enum OperatorTransportDeliveryAuthKind {
    Bearer,
    Hmac,
}

/// The delivery credentials of an operator transport binding.
#[derive(Debug, Clone, PartialEq, Eq)]
pub struct OperatorTransportDeliveryAuth {
    pub kind: OperatorTransportDeliveryAuthKind,
    pub bearer_token: Option<String>,
}

/// Bearer delivery needs a non-blank token; HMAC signing is refused until
/// it is implemented. Both refusals are `400`.
pub fn validate_operator_transport_delivery_auth(auth: OperatorTransportDeliveryAuth) -> (r: Result<OperatorTransportDeliveryAuth, HttpError>)
    ensures
        match auth.kind {
            OperatorTransportDeliveryAuthKind::Bearer => match auth.bearer_token {
                Some(t) if trim(t@).len() != 0 => r == Ok::<OperatorTransportDeliveryAuth, HttpError>(auth),
                _ => r matches Err(e) && plain_error(
                    e,
                    STATUS_BAD_REQUEST,
                    "delivery_auth.bearer_token must be non-empty when kind is bearer"@,
                ),
            },
            OperatorTransportDeliveryAuthKind::Hmac => r matches Err(e) && plain_error(
                e,
                STATUS_BAD_REQUEST,
                "delivery_auth.kind=hmac is not supported until HMAC signing is implemented"@,
            ),
        },
{
    match auth.kind {
        OperatorTransportDeliveryAuthKind::Bearer => {
            let kind = auth.kind;
            let token = match auth.bearer_token {
                Some(t) => non_empty_opt(t),
                None => None,
            };
            match token {
                Some(t) => Ok(OperatorTransportDeliveryAuth { kind, bearer_token: Some(t) }),
                None => Err(
                    bad_request(
                        String::from_str("delivery_auth.bearer_token must be non-empty when kind is bearer"),
                    ),
                ),
            }
        },
        OperatorTransportDeliveryAuthKind::Hmac => Err(
            bad_request(
                String::from_str("delivery_auth.kind=hmac is not supported until HMAC signing is implemented"),
            ),
        ),
    }
}

} // verus!
