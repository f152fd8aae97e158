//! The display order of work items in the agent state bootstrap: ready
//! open items first, then blocked ones, then completed ones; open items in
//! queue order (oldest first), completed ones most recent first, ties
//! broken by id. The sort is stable.
use vstd::prelude::*;

verus! {

/// The fields of a work item that decide where it is listed. Times are
/// seconds and nanoseconds since the Unix epoch.
#[derive(Debug, Clone)]
pub struct StateWorkItemKey {
    pub id: String,
    /// The item is completed (otherwise it is open).
    pub completed: bool,
    /// The item names a blocker.
    pub blocked: bool,
    pub created_at_secs: i64,
    pub created_at_nanos: u32,
    pub updated_at_secs: i64,
    pub updated_at_nanos: u32,
}

pub open spec fn created(k: StateWorkItemKey) -> (i64, u32) {
    (k.created_at_secs, k.created_at_nanos)
}

pub open spec fn updated(k: StateWorkItemKey) -> (i64, u32) {
    (k.updated_at_secs, k.updated_at_nanos)
}

/// Ready open items, then blocked open items, then completed items.
pub open spec fn rank(k: StateWorkItemKey) -> int {
    if k.completed {
        2
    } else if !k.blocked {
        0
    } else {
        1
    }
}

/// Three-way comparison of integers: `-1`, `0` or `1`.
pub open spec fn compare_int(a: int, b: int) -> int {
    if a < b {
        -1
    } else if a > b {
        1
    } else {
        0
    }
}

/// The first comparison that is not a tie.
pub open spec fn then(c: int, d: int) -> int {
    if c != 0 {
        c
    } else {
        d
    }
}

/// Comparison of `(seconds, nanoseconds)` instants.
pub open spec fn compare_time(a: (i64, u32), b: (i64, u32)) -> int {
    then(compare_int(a.0 as int, b.0 as int), compare_int(a.1 as int, b.1 as int))
}

/// Lexicographic comparison of strings, character by character (the
/// order of `str`'s `Ord`, as UTF-8 preserves code point order).
pub open spec fn compare_chars(a: Seq<char>, b: Seq<char>) -> int
    decreases a.len(),
{
    if a.len() == 0 {
        if b.len() == 0 {
            0
        } else {
            -1
        }
    } else if b.len() == 0 {
        1
    } else {
        then(compare_int(a[0] as int, b[0] as int), compare_chars(a.drop_first(), b.drop_first()))
    }
}

/// Where `a` is listed relative to `b`: negative before, positive after,
/// zero for keys that tie on every field.
pub open spec fn display_compare(a: StateWorkItemKey, b: StateWorkItemKey) -> int {
    let by_time = if !a.completed && !b.completed {
        then(compare_time(created(a), created(b)), compare_time(updated(a), updated(b)))
    } else {
        then(compare_time(updated(b), updated(a)), compare_time(created(b), created(a)))
    };
    then(then(compare_int(rank(a), rank(b)), by_time), compare_chars(a.id@, b.id@))
}

pub proof fn lemma_compare_chars(a: Seq<char>, b: Seq<char>, c: Seq<char>)
    ensures
        -1 <= compare_chars(a, b) <= 1,
        compare_chars(a, b) == -compare_chars(b, a),
        compare_chars(a, b) == 0 ==> a == b,
        compare_chars(a, b) <= 0 && compare_chars(b, c) <= 0 ==> compare_chars(a, c) <= 0,
        compare_chars(a, b) < 0 && compare_chars(b, c) <= 0 ==> compare_chars(a, c) < 0,
        compare_chars(a, b) <= 0 && compare_chars(b, c) < 0 ==> compare_chars(a, c) < 0,
    decreases a.len(),
{
    if a.len() > 0 && b.len() > 0 && c.len() > 0 {
        lemma_compare_chars(a.drop_first(), b.drop_first(), c.drop_first());
        if compare_chars(a, b) == 0 {
            assert(a =~= seq![a[0]] + a.drop_first());
            assert(b =~= seq![b[0]] + b.drop_first());
        }
    } else if a.len() > 0 && b.len() > 0 {
        lemma_compare_chars(a.drop_first(), b.drop_first(), c);
        if compare_chars(a, b) == 0 {
            assert(a =~= seq![a[0]] + a.drop_first());
            assert(b =~= seq![b[0]] + b.drop_first());
        }
    }
}

proof fn lemma_then_time(a: (i64, u32), b: (i64, u32), c: (i64, u32))
    ensures
        compare_time(a, b) == -compare_time(b, a),
        compare_time(a, b) == 0 ==> a == b,
        compare_time(a, b) <= 0 && compare_time(b, c) <= 0 ==> compare_time(a, c) <= 0,
        compare_time(a, b) < 0 && compare_time(b, c) <= 0 ==> compare_time(a, c) < 0,
        compare_time(a, b) <= 0 && compare_time(b, c) < 0 ==> compare_time(a, c) < 0,
{
}

/// The display order is a total preorder that ties only identical keys:
/// antisymmetric and transitive.
pub proof fn lemma_display_compare(a: StateWorkItemKey, b: StateWorkItemKey, c: StateWorkItemKey)
    ensures
        display_compare(a, b) == -display_compare(b, a),
        display_compare(a, b) <= 0 && display_compare(b, c) <= 0 ==> display_compare(a, c) <= 0,
        display_compare(a, b) < 0 && display_compare(b, c) <= 0 ==> display_compare(a, c) < 0,
        display_compare(a, b) <= 0 && display_compare(b, c) < 0 ==> display_compare(a, c) < 0,
{
    lemma_compare_chars(a.id@, b.id@, c.id@);
    lemma_compare_chars(b.id@, a.id@, c.id@);
    lemma_then_time(created(a), created(b), created(c));
    lemma_then_time(updated(a), updated(b), updated(c));
    lemma_then_time(created(c), created(b), created(a));
    lemma_then_time(updated(c), updated(b), updated(a));
    lemma_then_time(created(b), created(a), created(c));
    lemma_then_time(updated(b), updated(a), updated(c));
}


fn compare_u64ish(a: i64, b: i64) -> (c: i8)
    ensures
        c as int == compare_int(a as int, b as int),
{
    if a < b {
        -1
    } else if a > b {
        1
    } else {
        0
    }
}

fn compare_nanos(a: u32, b: u32) -> (c: i8)
    ensures
        c as int == compare_int(a as int, b as int),
{
    if a < b {
        -1
    } else if a > b {
        1
    } else {
        0
    }
}

fn compare_instants(a_secs: i64, a_nanos: u32, b_secs: i64, b_nanos: u32) -> (c: i8)
    ensures
        c as int == compare_time((a_secs, a_nanos), (b_secs, b_nanos)),
{
    let s = compare_u64ish(a_secs, b_secs);
    if s != 0 {
        s
    } else {
        compare_nanos(a_nanos, b_nanos)
    }
}

/// The group a work item is listed in: `0` ready, `1` blocked, `2` completed.
pub fn state_work_item_rank(k: &StateWorkItemKey) -> (r: u8)
    ensures
        r as int == rank(*k),
{
    if k.completed {
        2
    } else if !k.blocked {
        0
    } else {
        1
    }
}

/// Three-way comparison of two strings, character by character.
pub fn compare_names(a: &str, b: &str) -> (c: i8)
    ensures
        c as int == compare_chars(a@, b@),
{
    let va = crate::text::chars_of(a);
    let vb = crate::text::chars_of(b);
    let mut i: usize = 0;
    assert(va@.skip(0) =~= va@);
    assert(vb@.skip(0) =~= vb@);
    while i < va.len() && i < vb.len() && va[i] == vb[i]
        invariant
            i <= va@.len(),
            i <= vb@.len(),
            compare_chars(va@, vb@) == compare_chars(va@.skip(i as int), vb@.skip(i as int)),
        decreases va.len() - i,
    {
        assert(va@.skip(i as int).drop_first() =~= va@.skip(i + 1));
        assert(vb@.skip(i as int).drop_first() =~= vb@.skip(i + 1));
        i = i + 1;
    }
    let ghost sa = va@.skip(i as int);
    let ghost sb = vb@.skip(i as int);
    assert(sa.len() == va@.len() - i && sb.len() == vb@.len() - i);
    if i == va.len() {
        if i == vb.len() {
            0
        } else {
            -1
        }
    } else if i == vb.len() {
        1
    } else {
        assert(sa[0] == va@[i as int] && sb[0] == vb@[i as int]);
        if va[i] < vb[i] {
            -1
        } else {
            1
        }
    }
}

/// Three-way comparison of two keys in display order.
pub fn display_compare_keys(a: &StateWorkItemKey, b: &StateWorkItemKey) -> (c: i8)
    ensures
        c as int == display_compare(*a, *b),
{
    let r = {
        let ra = state_work_item_rank(a);
        let rb = state_work_item_rank(b);
        if ra < rb {
            -1i8
        } else if ra > rb {
            1i8
        } else {
            0i8
        }
    };
    if r != 0 {
        return r;
    }
    let t = if !a.completed && !b.completed {
        let c = compare_instants(a.created_at_secs, a.created_at_nanos, b.created_at_secs, b.created_at_nanos);
        if c != 0 {
            c
        } else {
            compare_instants(a.updated_at_secs, a.updated_at_nanos, b.updated_at_secs, b.updated_at_nanos)
        }
    } else {
        let c = compare_instants(b.updated_at_secs, b.updated_at_nanos, a.updated_at_secs, a.updated_at_nanos);
        if c != 0 {
            c
        } else {
            compare_instants(b.created_at_secs, b.created_at_nanos, a.created_at_secs, a.created_at_nanos)
        }
    };
    if t != 0 {
        return t;
    }
    compare_names(a.id.as_str(), b.id.as_str())
}

/// `order` lists each index of `items` once, in display order, keeping the
/// input order of keys that tie.
pub open spec fn display_sorted(items: Seq<StateWorkItemKey>, order: Seq<usize>) -> bool {
    &&& order.len() == items.len()
    &&& order.no_duplicates()
    &&& forall|j: int| 0 <= j < order.len() ==> order[j] < items.len()
    &&& forall|a: int, b: int|
        0 <= a < b < order.len() ==> display_compare(
            #[trigger] items[order[a] as int],
            #[trigger] items[order[b] as int],
        ) <= 0
    &&& forall|a: int, b: int|
        0 <= a < b < order.len() && display_compare(
            #[trigger] items[order[a] as int],
            #[trigger] items[order[b] as int],
        ) == 0 ==> order[a] < order[b]
}

/// The order in which the state bootstrap lists work items: a stable sort
/// of their indices by display order.
pub fn state_work_item_display_order(items: &Vec<StateWorkItemKey>) -> (order: Vec<usize>)
    ensures
        display_sorted(items@, order@),
{
    let mut order: Vec<usize> = Vec::new();
    let n = items.len();
    let mut i: usize = 0;
    while i < n
        invariant
            i <= n == items@.len(),
            order@.len() == i,
            order@.no_duplicates(),
            forall|j: int| 0 <= j < order@.len() ==> order@[j] < i,
            forall|a: int, b: int|
                0 <= a < b < order@.len() ==> display_compare(
                    #[trigger] items@[order@[a] as int],
                    #[trigger] items@[order@[b] as int],
                ) <= 0,
            forall|a: int, b: int|
                0 <= a < b < order@.len() && display_compare(
                    #[trigger] items@[order@[a] as int],
                    #[trigger] items@[order@[b] as int],
                ) == 0 ==> order@[a] < order@[b],
        decreases n - i,
    {
        let mut p: usize = 0;
        while p < order.len() && display_compare_keys(&items[order[p]], &items[i]) <= 0
            invariant
                p <= order@.len(),
                i < items@.len(),
                forall|j: int| 0 <= j < order@.len() ==> order@[j] < i,
                forall|q: int| 0 <= q < p ==> display_compare(
                    #[trigger] items@[order@[q] as int],
                    items@[i as int],
                ) <= 0,
            decreases order.len() - p,
        {
            p = p + 1;
        }
        let ghost old_order = order@;
        order.insert(p, i);
        proof {
            let x = items@[i as int];
            let ord = order@;
            assert(ord == old_order.insert(p as int, i));
            assert forall|j: int| 0 <= j < ord.len() implies ord[j] < i + 1 by {
                if j < p {
                    assert(ord[j] == old_order[j]);
                } else if j > p {
                    assert(ord[j] == old_order[j - 1]);
                }
            }
            assert forall|a: int, b: int| 0 <= a < b < ord.len() implies ord[a] != ord[b] by {
                if a < p && b < p {
                    assert(ord[a] == old_order[a] && ord[b] == old_order[b]);
                } else if a < p && b == p {
                    assert(ord[a] == old_order[a]);
                } else if a < p && b > p {
                    assert(ord[a] == old_order[a] && ord[b] == old_order[b - 1]);
                } else if a == p {
                    assert(ord[b] == old_order[b - 1]);
                } else {
                    assert(ord[a] == old_order[a - 1] && ord[b] == old_order[b - 1]);
                }
            }
            if p < old_order.len() {
                lemma_display_compare(items@[old_order[p as int] as int], x, x);
            }
            assert forall|a: int, b: int| 0 <= a < b < ord.len() implies display_compare(
                #[trigger] items@[ord[a] as int],
                #[trigger] items@[ord[b] as int],
            ) <= 0 && (display_compare(items@[ord[a] as int], items@[ord[b] as int]) == 0 ==> ord[a]
                < ord[b]) by {
                if b < p {
                    assert(ord[a] == old_order[a] && ord[b] == old_order[b]);
                } else if b == p {
                    assert(ord[a] == old_order[a]);
                    assert(display_compare(items@[old_order[a] as int], x) <= 0);
                } else if a < p {
                    assert(ord[a] == old_order[a] && ord[b] == old_order[b - 1]);
                } else if a == p {
                    assert(ord[b] == old_order[b - 1]);
                    let y = items@[old_order[p as int] as int];
                    let z = items@[old_order[b - 1] as int];
                    assert(display_compare(y, x) > 0);
                    lemma_display_compare(x, y, z);
                    if b - 1 > p {
                        assert(display_compare(y, z) <= 0);
                    }
                    assert(display_compare(x, z) < 0);
                } else {
                    assert(ord[a] == old_order[a - 1] && ord[b] == old_order[b - 1]);
                }
            }
        }
        i = i + 1;
    }
    order
}


/// In display order, ready open items come before blocked ones and both
/// before completed ones; open items of the same readiness are listed
/// oldest first, completed ones most recently updated first.
pub proof fn display_order_respects_queue(items: Seq<StateWorkItemKey>, order: Seq<usize>)
    requires
        display_sorted(items, order),
    ensures
        forall|a: int, b: int|
            0 <= a < b < order.len() ==> rank(#[trigger] items[order[a] as int]) <= rank(
                #[trigger] items[order[b] as int],
            ),
        forall|a: int, b: int|
            0 <= a < b < order.len() && rank(#[trigger] items[order[a] as int]) == rank(
                #[trigger] items[order[b] as int],
            ) && rank(items[order[a] as int]) < 2 ==> compare_time(
                created(items[order[a] as int]),
                created(items[order[b] as int]),
            ) <= 0,
        forall|a: int, b: int|
            0 <= a < b < order.len() && rank(#[trigger] items[order[a] as int]) == 2 && rank(
                #[trigger] items[order[b] as int],
            ) == 2 ==> compare_time(updated(items[order[b] as int]), updated(items[order[a] as int]))
                <= 0,
{
    assert forall|a: int, b: int| 0 <= a < b < order.len() implies rank(
        #[trigger] items[order[a] as int],
    ) <= rank(#[trigger] items[order[b] as int]) by {
        assert(display_compare(items[order[a] as int], items[order[b] as int]) <= 0);
    }
    assert forall|a: int, b: int|
        0 <= a < b < order.len() && rank(#[trigger] items[order[a] as int]) == rank(
            #[trigger] items[order[b] as int],
        ) && rank(items[order[a] as int]) < 2 implies compare_time(
        created(items[order[a] as int]),
        created(items[order[b] as int]),
    ) <= 0 by {
        assert(display_compare(items[order[a] as int], items[order[b] as int]) <= 0);
    }
    assert forall|a: int, b: int|
        0 <= a < b < order.len() && rank(#[trigger] items[order[a] as int]) == 2 && rank(
            #[trigger] items[order[b] as int],
        ) == 2 implies compare_time(updated(items[order[b] as int]), updated(items[order[a] as int]))
        <= 0 by {
        assert(display_compare(items[order[a] as int], items[order[b] as int]) <= 0);
    }
}

} // verus!
