use i3im::events::{
    check_window_conditions, handle_window_event, handle_workspace_event, ConfigRegex, EventAction,
    NodeFloating, NodeFullscreenMode, NodeInfo, NodeLayout, NodeType, ShellCommand, StringMatch,
    WindowEvent, WindowEventCondition, WindowEventHandler, WindowEventType, WorkspaceEvent,
    WorkspaceEventCondition, WorkspaceEventHandler, WorkspaceEventType,
};

fn plain_node() -> NodeInfo {
    NodeInfo {
        name: Some("editor".to_string()),
        node_type: NodeType::Con,
        layout: NodeLayout::SplitH,
        floating: NodeFloating::AutoOff,
        fullscreen_mode: NodeFullscreenMode::NoFullscreen,
        urgent: false,
        focused: true,
        sticky: false,
        title: Some("Notes".to_string()),
        instance: None,
        class: Some("TextEditor".to_string()),
        window_role: None,
        transient_for: None,
        machine: None,
        mark: None,
    }
}

fn shell(cmd: &str) -> EventAction {
    EventAction::ShellCommand(ShellCommand { command: cmd.to_string(), extra_env: Vec::new() })
}

#[test]
fn string_match_eq() {
    let m = StringMatch::Eq("editor".to_string());
    assert!(m.matches("editor"));
    assert!(!m.matches("Editor"));
    assert!(!m.matches_option(None));
    assert!(m.matches_option(Some("editor")));
}

#[test]
fn string_match_eq_ignore_case() {
    let m = StringMatch::EqIgnoreCase("EdItOr".to_string());
    assert!(m.matches("editor"));
    assert!(m.matches("EDITOR"));
    assert!(!m.matches("editors"));
}

#[test]
fn string_match_regex() {
    // a regex that hands its input back unchanged would accept "bxb" too
    let re = ConfigRegex::new("^a+b$").expect("valid pattern");
    assert_eq!(re.pattern(), "^a+b$");
    let m = StringMatch::Regex(re);
    assert!(m.matches("aab"));
    assert!(!m.matches("bxb"));
    assert!(!m.matches("^a+b$"));
}

#[test]
fn invalid_regex_is_rejected() {
    assert!(ConfigRegex::new("(").is_none());
}

#[test]
fn window_conditions() {
    let event = WindowEvent { change: WindowEventType::Focus, container: plain_node() };
    assert!(WindowEventCondition::EventType(WindowEventType::Focus).matches(&event));
    assert!(!WindowEventCondition::EventType(WindowEventType::Close).matches(&event));
    assert!(WindowEventCondition::Name(StringMatch::Eq("editor".to_string())).matches(&event));
    assert!(WindowEventCondition::NodeType(NodeType::Con).matches(&event));
    assert!(!WindowEventCondition::NodeType(NodeType::Workspace).matches(&event));
    assert!(WindowEventCondition::Focused(true).matches(&event));
    assert!(WindowEventCondition::Urgent(false).matches(&event));
    assert!(
        WindowEventCondition::Class(StringMatch::EqIgnoreCase("texteditor".to_string()))
            .matches(&event)
    );
    // an absent property matches nothing
    assert!(!WindowEventCondition::Mark(StringMatch::Eq("".to_string())).matches(&event));
}

#[test]
fn condition_lists_are_conjunctions() {
    let event = WindowEvent { change: WindowEventType::Focus, container: plain_node() };
    let all_hold = vec![
        WindowEventCondition::EventType(WindowEventType::Focus),
        WindowEventCondition::Focused(true),
    ];
    assert!(check_window_conditions(&all_hold, &event));
    let one_fails = vec![
        WindowEventCondition::EventType(WindowEventType::Focus),
        WindowEventCondition::Sticky(true),
    ];
    assert!(!check_window_conditions(&one_fails, &event));
    let none: Vec<WindowEventCondition> = Vec::new();
    assert!(check_window_conditions(&none, &event));
}

#[test]
fn firing_window_handlers() {
    let event = WindowEvent { change: WindowEventType::New, container: plain_node() };
    let handlers = vec![
        WindowEventHandler {
            condition_list: vec![WindowEventCondition::EventType(WindowEventType::New)],
            action: shell("a"),
        },
        WindowEventHandler {
            condition_list: vec![WindowEventCondition::EventType(WindowEventType::Close)],
            action: shell("b"),
        },
        WindowEventHandler { condition_list: Vec::new(), action: shell("c") },
    ];
    assert_eq!(handle_window_event(&handlers, &event), vec![0, 2]);
}

#[test]
fn workspace_conditions_read_both_sides() {
    let event = WorkspaceEvent {
        change: WorkspaceEventType::Focus,
        old: None,
        current: Some(plain_node()),
    };
    assert!(WorkspaceEventCondition::EventType(WorkspaceEventType::Focus).matches(&event));
    assert!(
        WorkspaceEventCondition::CurrentName(StringMatch::Eq("editor".to_string()))
            .matches(&event)
    );
    // the old side is absent: nothing about it matches
    assert!(!WorkspaceEventCondition::OldName(StringMatch::Eq("editor".to_string()))
        .matches(&event));
    assert!(!WorkspaceEventCondition::OldFocused(true).matches(&event));
    assert!(WorkspaceEventCondition::CurrentFocused(true).matches(&event));
    assert!(WorkspaceEventCondition::CurrentNodeLayout(NodeLayout::SplitH).matches(&event));
}

#[test]
fn firing_workspace_handlers() {
    let event = WorkspaceEvent {
        change: WorkspaceEventType::Init,
        old: Some(plain_node()),
        current: None,
    };
    let handlers = vec![
        WorkspaceEventHandler {
            condition_list: vec![WorkspaceEventCondition::EventType(WorkspaceEventType::Empty)],
            action: shell("a"),
        },
        WorkspaceEventHandler {
            condition_list: vec![
                WorkspaceEventCondition::EventType(WorkspaceEventType::Init),
                WorkspaceEventCondition::OldTitle(StringMatch::Eq("Notes".to_string())),
            ],
            action: shell("b"),
        },
    ];
    assert_eq!(handle_workspace_event(&handlers, &event), vec![1]);
}
