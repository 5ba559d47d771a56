use i3im::renumber::{reassign_i3_ids, rename_commands, sort_ids};
use i3im::workspace_id::WorkspaceID;

fn decode_all(names: &[&str]) -> Vec<WorkspaceID> {
    names.iter().map(|s| WorkspaceID::of_i3_workspace(s)).collect()
}

fn encoded(ids: &[WorkspaceID]) -> Vec<String> {
    ids.iter().map(|id| id.i3_workspace_name()).collect()
}

#[test]
fn sort_orders_by_group_and_slot() {
    let ids = decode_all(&["web:2", "3", "app:1", "web:1", "1:app"]);
    let sorted = sort_ids(&ids);
    assert_eq!(encoded(&sorted), vec!["3", "1:app", "app:1", "web:1", "web:2"]);
}

#[test]
fn reassign_numbers_after_largest_bare_id() {
    // bare ids 3 and 5 are reserved; everything else gets 6, 7, ... in
    // (group, slot) order
    let ids = decode_all(&["web:2", "3", "1:app:1", "web:1", "5"]);
    let plan = reassign_i3_ids(&ids).expect("fits");
    let pairs: Vec<(String, String)> = plan
        .iter()
        .map(|(a, b)| (a.i3_workspace_name(), b.i3_workspace_name()))
        .collect();
    assert_eq!(
        pairs,
        vec![
            ("1:app:1".to_string(), "6:app:1".to_string()),
            ("web:1".to_string(), "7:web:1".to_string()),
            ("web:2".to_string(), "8:web:2".to_string()),
        ]
    );
}

#[test]
fn reassign_starts_at_one_without_bare_ids() {
    let ids = decode_all(&["web:1", "app:4"]);
    let plan = reassign_i3_ids(&ids).expect("fits");
    let pairs: Vec<(String, String)> = plan
        .iter()
        .map(|(a, b)| (a.i3_workspace_name(), b.i3_workspace_name()))
        .collect();
    assert_eq!(
        pairs,
        vec![
            ("app:4".to_string(), "1:app:4".to_string()),
            ("web:1".to_string(), "2:web:1".to_string()),
        ]
    );
}

#[test]
fn reassign_empty_registry() {
    let plan = reassign_i3_ids(&Vec::new()).expect("fits");
    assert!(plan.is_empty());
}

#[test]
fn reassign_leaves_bare_ids_alone() {
    let ids = decode_all(&["1", "2", "7"]);
    let plan = reassign_i3_ids(&ids).expect("fits");
    assert!(plan.is_empty());
}

#[test]
fn reassign_refuses_overflowing_ids() {
    let ids = decode_all(&["9223372036854775807", "web:1"]);
    assert!(reassign_i3_ids(&ids).is_none());
}

#[test]
fn rename_commands_skip_unchanged_names() {
    let ids = decode_all(&["2", "1:web:1", "web:5"]);
    let plan = reassign_i3_ids(&ids).expect("fits");
    // 1:web:1 would be renamed to 3:web:1; web:5 to 4:web:5
    let cmds = rename_commands(&plan);
    assert_eq!(
        cmds,
        vec![
            "rename workspace \"1:web:1\" to \"3:web:1\"".to_string(),
            "rename workspace \"web:5\" to \"4:web:5\"".to_string(),
        ]
    );
    // a pair that already carries its id produces no command
    let noop = vec![(
        WorkspaceID::Full(3, "web".to_string(), 1),
        WorkspaceID::Full(3, "web".to_string(), 1),
    )];
    assert!(rename_commands(&noop).is_empty());
}

#[test]
fn reassigned_ids_preserve_group_and_slot() {
    let ids = decode_all(&["9:web:2", "web:9", "4"]);
    let plan = reassign_i3_ids(&ids).expect("fits");
    for (old, new) in &plan {
        assert_eq!(old.group().cloned(), new.group().cloned());
        assert_eq!(old.group_workspace(), new.group_workspace());
        assert!(new.i3_id().is_some());
        assert!(new.i3_id().unwrap() > 4);
    }
    let mut seen: Vec<i64> = plan.iter().map(|(_, n)| n.i3_id().unwrap()).collect();
    let before = seen.clone();
    seen.sort();
    seen.dedup();
    assert_eq!(seen.len(), plan.len());
    assert_eq!(before, seen, "ids are handed out in increasing order");
}

#[test]
fn sort_is_stable_on_equal_keys() {
    // both decode to the key (web, 1); the snapshot order is kept
    let ids = decode_all(&["9:web:1", "2:web:1"]);
    let sorted = sort_ids(&ids);
    assert_eq!(encoded(&sorted), vec!["9:web:1", "2:web:1"]);
    let plan = reassign_i3_ids(&ids).expect("fits");
    let pairs: Vec<(String, String)> = plan
        .iter()
        .map(|(a, b)| (a.i3_workspace_name(), b.i3_workspace_name()))
        .collect();
    assert_eq!(
        pairs,
        vec![
            ("9:web:1".to_string(), "1:web:1".to_string()),
            ("2:web:1".to_string(), "2:web:1".to_string()),
        ]
    );
}
