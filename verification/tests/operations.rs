use i3im::ops::{
    focus_group, focus_group_workspace, move_window_to_group_workspace, move_window_to_workspace,
    rename_group,
};
use i3im::registry::{I3Workspace, Workspace};
use i3im::Error;

fn registry(entries: &[(&str, bool)]) -> Vec<Workspace> {
    let records: Vec<I3Workspace> = entries
        .iter()
        .map(|(name, focused)| I3Workspace { name: name.to_string(), focused: *focused })
        .collect();
    Workspace::list(records)
}

#[test]
fn focus_group_on_empty_registry_without_group() {
    // creating the ungrouped workspace: the bare id 1
    let plan = focus_group(&registry(&[]), None, None);
    assert_eq!(plan.command, "workspace 1");
    assert!(plan.renumber);
}

#[test]
fn focus_group_on_empty_registry_with_group() {
    // creating a group: its first slot
    let plan = focus_group(&registry(&[]), Some("g"), None);
    assert_eq!(plan.command, "workspace g:1");
    assert!(plan.renumber);
}

#[test]
fn focus_group_prefers_remembered_slot() {
    let ws = registry(&[("2:g:1", false), ("3:g:5", false), ("1", true)]);
    // without history: the group's first record
    let plan = focus_group(&ws, Some("g"), None);
    assert_eq!(plan.command, "workspace 2:g:1");
    assert!(!plan.renumber);
    // with history: the remembered slot, while it still exists
    let plan = focus_group(&ws, Some("g"), Some(5));
    assert_eq!(plan.command, "workspace 3:g:5");
    assert!(!plan.renumber);
    // a remembered slot that no longer exists falls back
    let plan = focus_group(&ws, Some("g"), Some(9));
    assert_eq!(plan.command, "workspace 2:g:1");
    assert!(!plan.renumber);
}

#[test]
fn focus_group_absent_group_is_created() {
    let ws = registry(&[("2:g:1", true)]);
    let plan = focus_group(&ws, Some("h"), Some(3));
    assert_eq!(plan.command, "workspace h:1");
    assert!(plan.renumber);
}

#[test]
fn focus_group_workspace_existing_slot() {
    let ws = registry(&[("2:g:1", true), ("3:g:4", false)]);
    let plan = focus_group_workspace(&ws, 4).expect("focused exists");
    assert_eq!(plan.command, "workspace 3:g:4");
    assert!(!plan.renumber);
}

#[test]
fn focus_group_workspace_new_slot() {
    let ws = registry(&[("2:g:1", true)]);
    let plan = focus_group_workspace(&ws, 7).expect("focused exists");
    assert_eq!(plan.command, "workspace 2:g:7");
    assert!(plan.renumber);
}

#[test]
fn focus_group_workspace_without_focus_fails() {
    let ws = registry(&[("2:g:1", false)]);
    let r = focus_group_workspace(&ws, 7);
    assert!(matches!(r, Err(Error::NotFound(_))));
}

#[test]
fn rename_group_moves_exactly_the_group() {
    let ws = registry(&[("2:g:1", true), ("3:h:1", false), ("4:g:2", false)]);
    let pairs = rename_group(&ws, Some("g"), Some("work"));
    let renames: Vec<(String, String)> = pairs
        .iter()
        .map(|(a, b)| (a.i3_workspace_name(), b.i3_workspace_name()))
        .collect();
    assert_eq!(
        renames,
        vec![
            ("2:g:1".to_string(), "2:work:1".to_string()),
            ("4:g:2".to_string(), "4:work:2".to_string()),
        ]
    );
}

#[test]
fn rename_group_to_none_ungroups() {
    let ws = registry(&[("2:g:1", true), ("3:h:1", false)]);
    let pairs = rename_group(&ws, Some("g"), None);
    let renames: Vec<(String, String)> = pairs
        .iter()
        .map(|(a, b)| (a.i3_workspace_name(), b.i3_workspace_name()))
        .collect();
    assert_eq!(renames, vec![("2:g:1".to_string(), "1".to_string())]);
}

#[test]
fn rename_group_nothing_matches() {
    let ws = registry(&[("2:g:1", true)]);
    assert!(rename_group(&ws, Some("zzz"), Some("a")).is_empty());
}

#[test]
fn move_window_commands() {
    let ws = registry(&[("2:g:1", true), ("3:g:4", false)]);
    let cmd = move_window_to_group_workspace(&ws, 9).expect("focused exists");
    assert_eq!(cmd, "move container to workspace 2:g:9");
    assert_eq!(
        move_window_to_workspace("web:3"),
        "move container to workspace web:3"
    );
    // the name is re-encoded, not passed through verbatim
    assert_eq!(
        move_window_to_workspace("007"),
        "move container to workspace 7"
    );
}

#[test]
fn move_window_without_focus_fails() {
    let ws = registry(&[("2:g:1", false)]);
    assert!(matches!(
        move_window_to_group_workspace(&ws, 9),
        Err(Error::NotFound(_))
    ));
}

#[test]
fn registry_lookups() {
    let records = vec![
        I3Workspace { name: "2:g:1".to_string(), focused: false },
        I3Workspace { name: "web".to_string(), focused: true },
    ];
    let ws = Workspace::list(records);
    assert_eq!(ws.len(), 2);
    let focused = Workspace::get_focused(&ws).expect("one is focused");
    assert_eq!(focused.i3_name(), "web");
    assert!(focused.is_focused());
    assert_eq!(focused.id().group().map(String::as_str), Some("web"));

    let records = vec![
        I3Workspace { name: "2:g:1".to_string(), focused: false },
        I3Workspace { name: "web".to_string(), focused: true },
    ];
    let found = Workspace::of_i3_workspace_name(records, "2:g:1").expect("present");
    assert_eq!(found.id().i3_id(), Some(2));

    let records = vec![I3Workspace { name: "web".to_string(), focused: true }];
    assert!(matches!(
        Workspace::of_i3_workspace_name(records, "nope"),
        Err(Error::NotFound(_))
    ));

    let nobody: Vec<Workspace> = Workspace::list(Vec::new());
    let r = Workspace::get_focused(&nobody);
    match r {
        Err(e) => assert_eq!(e.message(), "No focused workspace"),
        Ok(_) => panic!("empty registry has no focus"),
    }
}

#[test]
fn workspace_transformations_and_history_slot() {
    let records = vec![I3Workspace { name: "2:g:1".to_string(), focused: true }];
    let ws = Workspace::list(records);
    let w = Workspace::of_i3_workspace(I3Workspace { name: "2:g:1".to_string(), focused: true });
    assert_eq!(w.history_slot(), Some(1));
    assert_eq!(w.focus(), "workspace 2:g:1");
    let regrouped = Workspace::of_i3_workspace(I3Workspace {
        name: "2:g:1".to_string(),
        focused: true,
    })
    .with_group(Some("h"));
    assert_eq!(regrouped.id().i3_workspace_name(), "2:h:1");
    let resloted = Workspace::of_i3_workspace(I3Workspace {
        name: "2:g:1".to_string(),
        focused: true,
    })
    .with_group_workspace(6);
    assert_eq!(resloted.id().i3_workspace_name(), "2:g:6");
    // a bare id remembers itself as the slot of the ungrouped space
    let bare = Workspace::of_i3_workspace(I3Workspace { name: "4".to_string(), focused: true });
    assert_eq!(bare.history_slot(), Some(4));
    // a group-only workspace has nothing to remember
    let plain = Workspace::of_i3_workspace(I3Workspace { name: "web".to_string(), focused: true });
    assert_eq!(plain.history_slot(), None);
    drop(ws);
}

#[test]
fn error_messages() {
    assert_eq!(Error::Connection("no socket".to_string()).message(), "no socket");
    assert_eq!(Error::NotFound("gone".to_string()).message(), "gone");
    assert_eq!(Error::CommandRejected("bad".to_string()).message(), "bad");
    assert_eq!(Error::Persistence("disk".to_string()).message(), "disk");
}
