use i3im::commands::{
    Focus, FocusGroup, FocusI3Workspace, FocusWorkspace, List, Move, MoveWindowToGroupWorkspace,
    MoveWindowToWorkspace, Rename, RenameGroup, Request,
};
use i3im::config::{Config, LogLevel};
use i3im::workspace_id::WorkspaceID;

#[test]
fn focus_group_command_normalizes_empty_name() {
    let r = FocusGroup { name: "web".to_string() }.run();
    assert!(matches!(r, Request::FocusGroup(Some(g)) if g == "web"));
    let r = FocusGroup { name: "".to_string() }.run();
    assert!(matches!(r, Request::FocusGroup(None)));
}

#[test]
fn focus_commands_dispatch() {
    let r = Focus::Group(FocusGroup { name: "g".to_string() }).run();
    assert!(matches!(r, Request::FocusGroup(Some(_))));
    let r = Focus::Workspace(FocusWorkspace { group_workspace: 4 }).run();
    assert!(matches!(r, Request::FocusWorkspace(4)));
    let r = Focus::WmWorkspace(FocusI3Workspace { name: "1:g:2".to_string() }).run();
    assert!(matches!(r, Request::FocusI3Workspace(n) if n == "1:g:2"));
}

#[test]
fn rename_command_normalizes_empty_name() {
    let r = Rename::Group(RenameGroup { name: "work".to_string() }).run();
    assert!(matches!(r, Request::RenameGroup(Some(g)) if g == "work"));
    let r = Rename::Group(RenameGroup { name: "".to_string() }).run();
    assert!(matches!(r, Request::RenameGroup(None)));
}

#[test]
fn move_commands_dispatch() {
    let r = Move::WindowToGroupWorkspace(MoveWindowToGroupWorkspace { workspace: 3 }).run();
    assert!(matches!(r, Request::MoveWindowToGroupWorkspace(3)));
    let r = Move::WindowToWorkspace(MoveWindowToWorkspace { workspace: "web:1".to_string() }).run();
    assert!(matches!(r, Request::MoveWindowToWorkspace(n) if n == "web:1"));
}

#[test]
fn list_groups_deduplicates_in_first_occurrence_order() {
    let ids: Vec<WorkspaceID> = ["1:web:1", "2", "3:web:2", "4:mail:1", "app"]
        .iter()
        .map(|s| WorkspaceID::of_i3_workspace(s))
        .collect();
    let lines = List::Groups.run(&ids);
    // the bare id 2 contributes the empty (ungrouped) line
    assert_eq!(lines, vec!["web", "", "mail", "app"]);
}

#[test]
fn list_wm_workspaces_reencodes_names() {
    let ids: Vec<WorkspaceID> = ["1:web:1", "007"]
        .iter()
        .map(|s| WorkspaceID::of_i3_workspace(s))
        .collect();
    let lines = List::WmWorkspaces.run(&ids);
    assert_eq!(lines, vec!["1:web:1", "7"]);
}

#[test]
fn config_defaults_and_validation() {
    let config = Config {
        log_level: LogLevel::default(),
        window_event_handlers: Vec::new(),
        workspace_event_handlers: Vec::new(),
    };
    assert!(matches!(config.log_level, LogLevel::Info));
    assert!(config.validate().is_ok());
}
