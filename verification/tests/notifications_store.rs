use edex_de::notifications::{NotificationStore, MAX_ACTIVE};

#[test]
fn push_hands_out_ids_from_one() {
    let mut store = NotificationStore::new();
    assert_eq!(store.push("app", "first", "body", 5000), 1);
    assert_eq!(store.push("app", "second", "body", 5000), 2);
    assert_eq!(store.push("app", "third", "body", 5000), 3);
}

#[test]
fn push_keeps_the_fields() {
    let mut store = NotificationStore::new();
    let id = store.push("mail", "New mail", "From: a", 3000);
    let active = store.active();
    assert_eq!(active.len(), 1);
    assert_eq!(active[0].id, id);
    assert_eq!(active[0].app_name, "mail");
    assert_eq!(active[0].summary, "New mail");
    assert_eq!(active[0].body, "From: a");
    assert_eq!(active[0].timeout_ms, 3000);
}

#[test]
fn store_keeps_at_most_ten() {
    let mut store = NotificationStore::new();
    for i in 0..12 {
        store.push("app", &format!("n{i}"), "", 60_000);
    }
    let active = store.active();
    assert_eq!(active.len(), MAX_ACTIVE);
    assert_eq!(active[0].id, 3);
    assert_eq!(active[9].id, 12);
    assert_eq!(active[0].summary, "n2");
}

#[test]
fn dismiss_removes_only_that_id() {
    let mut store = NotificationStore::new();
    let a = store.push("app", "a", "", 60_000);
    let b = store.push("app", "b", "", 60_000);
    let c = store.push("app", "c", "", 60_000);
    store.dismiss(b);
    let ids: Vec<u32> = store.active().iter().map(|n| n.id).collect();
    assert_eq!(ids, vec![a, c]);
}

#[test]
fn dismiss_unknown_id_changes_nothing() {
    let mut store = NotificationStore::new();
    store.push("app", "a", "", 60_000);
    store.push("app", "b", "", 60_000);
    store.dismiss(99);
    assert_eq!(store.active().len(), 2);
    store.dismiss(1);
    store.dismiss(1);
    let ids: Vec<u32> = store.active().iter().map(|n| n.id).collect();
    assert_eq!(ids, vec![2]);
}

#[test]
fn push_then_dismiss_restores_the_store() {
    let mut store = NotificationStore::new();
    store.push("app", "a", "", 60_000);
    store.push("app", "b", "", 60_000);
    let before: Vec<u32> = store.active().iter().map(|n| n.id).collect();
    let id = store.push("app", "c", "", 60_000);
    store.dismiss(id);
    let after: Vec<u32> = store.active().iter().map(|n| n.id).collect();
    assert_eq!(before, after);
}

#[test]
fn clear_empties_the_store_but_ids_go_on() {
    let mut store = NotificationStore::new();
    store.push("app", "a", "", 60_000);
    store.push("app", "b", "", 60_000);
    store.clear();
    assert!(store.active().is_empty());
    assert_eq!(store.push("app", "c", "", 60_000), 3);
}

#[test]
fn active_given_drops_expired_ones() {
    let mut store = NotificationStore::new();
    store.push("app", "short", "", 1000);
    store.push("app", "long", "", 5000);
    store.push("app", "clock", "", 1000);
    // 2 s after creation: the first has expired, the second not; for the
    // third the clock went backwards, which never expires.
    let elapsed = vec![Some(2_000_000_000u128), Some(2_000_000_000u128), None];
    let kept = store.active_given(&elapsed);
    let names: Vec<&str> = kept.iter().map(|n| n.summary.as_str()).collect();
    assert_eq!(names, vec!["long", "clock"]);
    assert_eq!(store.active().len(), 2);
}

#[test]
fn expiry_is_strictly_after_the_timeout() {
    let mut store = NotificationStore::new();
    store.push("app", "x", "", 1000);
    let n = store.active().remove(0);
    assert!(!n.is_expired_after(Some(1_000_000_000)));
    assert!(n.is_expired_after(Some(1_000_000_001)));
    assert!(!n.is_expired_after(None));
    assert!(!n.is_expired());
}

#[test]
fn fresh_notifications_stay_active() {
    let mut store = NotificationStore::new();
    store.push("app", "a", "", 1000);
    store.push("app", "b", "", 1000);
    let kept = store.active_given(&vec![Some(5u128), Some(999_999_999u128)]);
    assert_eq!(kept.len(), 2);
}
