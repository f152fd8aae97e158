use holon_http::work_item_order::{
    display_compare_keys, state_work_item_display_order, state_work_item_rank, StateWorkItemKey,
};

fn key(id: &str, completed: bool, blocked: bool, created: i64, updated: i64) -> StateWorkItemKey {
    StateWorkItemKey {
        id: id.into(),
        completed,
        blocked,
        created_at_secs: created,
        created_at_nanos: 0,
        updated_at_secs: updated,
        updated_at_nanos: 0,
    }
}

#[test]
fn state_sort_preserves_queue_display_order() {
    let now = 1_700_000_000i64;
    let active = key("w1", false, false, now, now + 300);
    let queued_early = key("w2", false, false, now + 1, now + 1);
    let queued_late = key("w3", false, false, now + 61, now + 61);
    let waiting = key("w4", false, false, now + 121, now + 121);
    let completed = key("w5", true, false, now + 2, now + 2);
    let work_items = vec![
        waiting.clone(),
        completed,
        queued_late.clone(),
        active.clone(),
        queued_early.clone(),
    ];
    let order = state_work_item_display_order(&work_items);
    let ordered: Vec<&str> = order.iter().map(|&i| work_items[i].id.as_str()).collect();
    assert_eq!(ordered, vec!["w1", "w2", "w3", "w4", "w5"]);
}

#[test]
fn blocked_items_follow_ready_ones_and_completed_are_newest_first() {
    let items = vec![
        key("done-old", true, false, 10, 20),
        key("blocked", false, true, 1, 1),
        key("done-new", true, false, 5, 30),
        key("ready", false, false, 50, 50),
    ];
    let order = state_work_item_display_order(&items);
    let ids: Vec<&str> = order.iter().map(|&i| items[i].id.as_str()).collect();
    assert_eq!(ids, vec!["ready", "blocked", "done-new", "done-old"]);
}

#[test]
fn ties_are_broken_by_id_then_kept_stable() {
    let items = vec![
        key("b", false, false, 1, 1),
        key("a", false, false, 1, 1),
        key("a", false, false, 1, 1),
    ];
    let order = state_work_item_display_order(&items);
    assert_eq!(order, vec![1, 2, 0]);
    assert_eq!(display_compare_keys(&items[1], &items[0]), -1);
    assert_eq!(display_compare_keys(&items[1], &items[2]), 0);
    assert_eq!(display_compare_keys(&items[0], &items[1]), 1);
    assert!(state_work_item_display_order(&Vec::new()).is_empty());
}

#[test]
fn ranks_split_ready_blocked_and_completed() {
    assert_eq!(state_work_item_rank(&key("a", false, false, 1, 1)), 0);
    assert_eq!(state_work_item_rank(&key("b", false, true, 1, 1)), 1);
    assert_eq!(state_work_item_rank(&key("c", true, false, 1, 1)), 2);
    assert_eq!(state_work_item_rank(&key("d", true, true, 1, 1)), 2);
}
