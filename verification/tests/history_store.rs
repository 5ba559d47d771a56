use i3im::history::{get_last_workspace, group_to_key, update_and_get, History};

#[test]
fn keys_for_groups() {
    assert_eq!(group_to_key(Some("web")), "web");
    assert_eq!(group_to_key(None), "");
}

#[test]
fn empty_history_knows_nothing() {
    let h = History::new();
    assert_eq!(get_last_workspace(&h, Some("g")), None);
    assert_eq!(get_last_workspace(&h, None), None);
}

#[test]
fn update_returns_target_before_and_after() {
    // the slot recorded for g2 earlier survives a g1 update and is what
    // both the transaction and a later lookup return
    let mut h = History::from_entries(vec![("g2".to_string(), 7)]);
    let r = update_and_get(&mut h, Some("g1"), 3, Some("g2"));
    assert_eq!(r, Some(7));
    assert_eq!(get_last_workspace(&h, Some("g2")), Some(7));
    // the g1 write itself is visible
    assert_eq!(get_last_workspace(&h, Some("g1")), Some(3));
}

#[test]
fn update_of_unrecorded_target_returns_nothing() {
    let mut h = History::new();
    let r = update_and_get(&mut h, Some("g1"), 3, Some("g2"));
    assert_eq!(r, None);
}

#[test]
fn asking_about_the_group_just_recorded() {
    // the lookup happens after the write, so the current group reads
    // back the slot just recorded
    let mut h = History::new();
    let r = update_and_get(&mut h, Some("g"), 5, Some("g"));
    assert_eq!(r, Some(5));
}

#[test]
fn later_records_win() {
    let mut h = History::from_entries(vec![("g".to_string(), 1)]);
    update_and_get(&mut h, Some("g"), 2, None);
    assert_eq!(get_last_workspace(&h, Some("g")), Some(2));
}

#[test]
fn ungrouped_uses_the_empty_key() {
    let mut h = History::new();
    update_and_get(&mut h, None, 4, None);
    assert_eq!(get_last_workspace(&h, None), Some(4));
    assert_eq!(get_last_workspace(&h, Some("")), Some(4));
}

#[test]
fn entries_round_trip_through_persistence() {
    let mut h = History::new();
    update_and_get(&mut h, Some("a"), 1, None);
    update_and_get(&mut h, Some("b"), 2, None);
    let copied: Vec<(String, i64)> = h.entries().clone();
    let reloaded = History::from_entries(copied);
    assert_eq!(get_last_workspace(&reloaded, Some("a")), Some(1));
    assert_eq!(get_last_workspace(&reloaded, Some("b")), Some(2));
}
