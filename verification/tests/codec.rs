use i3im::workspace_id::WorkspaceID;
use std::cmp::Ordering;

fn decode(s: &str) -> WorkspaceID {
    WorkspaceID::of_i3_workspace(s)
}

#[test]
fn decode_bare_id() {
    assert!(matches!(decode("1"), WorkspaceID::JustI3ID(1)));
}

#[test]
fn decode_id_and_group() {
    match decode("1:web") {
        WorkspaceID::I3IDWithGroup(id, g) => {
            assert_eq!(id, 1);
            assert_eq!(g, "web");
        }
        _ => panic!("wrong shape"),
    }
}

#[test]
fn decode_group_only() {
    match decode("web") {
        WorkspaceID::JustGroup(g) => assert_eq!(g, "web"),
        _ => panic!("wrong shape"),
    }
}

#[test]
fn decode_group_and_slot() {
    match decode("web:1") {
        WorkspaceID::GroupWithWorkspace(g, w) => {
            assert_eq!(g, "web");
            assert_eq!(w, 1);
        }
        _ => panic!("wrong shape"),
    }
}

#[test]
fn decode_full() {
    match decode("1:web:1") {
        WorkspaceID::Full(id, g, w) => {
            assert_eq!(id, 1);
            assert_eq!(g, "web");
            assert_eq!(w, 1);
        }
        _ => panic!("wrong shape"),
    }
}

#[test]
fn decode_colon_group_and_slot() {
    match decode("other:web:1") {
        WorkspaceID::GroupWithWorkspace(g, w) => {
            assert_eq!(g, "other:web");
            assert_eq!(w, 1);
        }
        _ => panic!("wrong shape"),
    }
}

#[test]
fn decode_colon_group_only() {
    match decode("other:web:a") {
        WorkspaceID::JustGroup(g) => assert_eq!(g, "other:web:a"),
        _ => panic!("wrong shape"),
    }
}

#[test]
fn decode_numeric_group() {
    match decode("1:1") {
        WorkspaceID::I3IDWithGroup(id, g) => {
            assert_eq!(id, 1);
            assert_eq!(g, "1");
        }
        _ => panic!("wrong shape"),
    }
}

#[test]
fn decode_three_plain_fields() {
    // Neither outer field reads as an integer, so the whole name is the
    // group, colons included.
    match decode("aa:bb:cc") {
        WorkspaceID::JustGroup(g) => assert_eq!(g, "aa:bb:cc"),
        _ => panic!("wrong shape"),
    }
}

#[test]
fn decode_many_fields() {
    // first and last parse: the middle fields fold into one group name
    match decode("2:a:b:c:7") {
        WorkspaceID::Full(id, g, w) => {
            assert_eq!(id, 2);
            assert_eq!(g, "a:b:c");
            assert_eq!(w, 7);
        }
        _ => panic!("wrong shape"),
    }
}

#[test]
fn decode_id_with_colon_group() {
    match decode("3:a:b:x") {
        WorkspaceID::I3IDWithGroup(id, g) => {
            assert_eq!(id, 3);
            assert_eq!(g, "a:b:x");
        }
        _ => panic!("wrong shape"),
    }
}

#[test]
fn decode_empty() {
    match decode("") {
        WorkspaceID::JustGroup(g) => assert_eq!(g, ""),
        _ => panic!("wrong shape"),
    }
}

#[test]
fn decode_negative_and_signed() {
    assert!(matches!(decode("-4"), WorkspaceID::JustI3ID(-4)));
    assert!(matches!(decode("+4"), WorkspaceID::JustI3ID(4)));
    // too large for the id type: stays a group name
    match decode("99999999999999999999") {
        WorkspaceID::JustGroup(g) => assert_eq!(g, "99999999999999999999"),
        _ => panic!("wrong shape"),
    }
}

#[test]
fn encode_all_shapes() {
    assert_eq!(WorkspaceID::JustI3ID(5).i3_workspace_name(), "5");
    assert_eq!(
        WorkspaceID::I3IDWithGroup(5, "web".to_string()).i3_workspace_name(),
        "5:web"
    );
    assert_eq!(WorkspaceID::JustGroup("web".to_string()).i3_workspace_name(), "web");
    assert_eq!(
        WorkspaceID::GroupWithWorkspace("web".to_string(), 2).i3_workspace_name(),
        "web:2"
    );
    assert_eq!(
        WorkspaceID::Full(5, "web".to_string(), 2).i3_workspace_name(),
        "5:web:2"
    );
    assert_eq!(WorkspaceID::JustI3ID(-17).i3_workspace_name(), "-17");
}

fn same_components(a: &WorkspaceID, b: &WorkspaceID) -> bool {
    a.i3_id() == b.i3_id()
        && a.group().cloned() == b.group().cloned()
        && a.group_workspace() == b.group_workspace()
}

#[test]
fn round_trip_samples() {
    // whatever decoding produced, encoding and decoding again restores
    // the same components
    let samples = [
        "1",
        "1:web",
        "web",
        "web:1",
        "1:web:1",
        "other:web:1",
        "other:web:a",
        "1:1",
        "aa:bb:cc",
        "",
        ":",
        "a::b",
        "-3:g:-9",
        "2:a:b:c:7",
        "+0:x:+0",
        "9223372036854775807",
        "-9223372036854775808",
    ];
    for s in samples {
        let once = decode(s);
        let again = decode(&once.i3_workspace_name());
        assert!(same_components(&once, &again), "round trip broke on {:?}", s);
    }
}

#[test]
fn transformations() {
    // grouping a bare id reuses the id as the slot
    match decode("7").with_group(Some("web")) {
        WorkspaceID::Full(7, g, 7) => assert_eq!(g, "web"),
        _ => panic!("wrong shape"),
    }
    // ungrouping keeps the slot as the new bare id
    assert!(matches!(
        decode("web:3").with_group(None),
        WorkspaceID::JustI3ID(3)
    ));
    // clearing the group of a group-only name leaves the empty group
    match decode("web").with_group(None) {
        WorkspaceID::JustGroup(g) => assert_eq!(g, ""),
        _ => panic!("wrong shape"),
    }
    // a slot on a bare id replaces the id
    assert!(matches!(decode("7").with_group_workspace(4), WorkspaceID::JustI3ID(4)));
    // an id on a group+slot yields the full shape
    match decode("web:3").with_i3_id(9) {
        WorkspaceID::Full(9, g, 3) => assert_eq!(g, "web"),
        _ => panic!("wrong shape"),
    }
    // the id never touches group or slot
    let id = decode("5:web:3").with_i3_id(11);
    assert_eq!(id.i3_id(), Some(11));
    assert_eq!(id.group().map(String::as_str), Some("web"));
    assert_eq!(id.group_workspace(), Some(3));
}

#[test]
fn commands_built_from_identifiers() {
    assert_eq!(decode("1:web:2").focus(), "workspace 1:web:2");
    let old = decode("web:2");
    let new = old.clone().with_i3_id(4);
    assert_eq!(
        old.rename(&new),
        "rename workspace \"web:2\" to \"4:web:2\""
    );
}

#[test]
fn ordering_by_group_then_slot() {
    // absent group before present
    assert_eq!(
        decode("1").cmp_group_and_workspace(&decode("web:1")),
        Ordering::Less
    );
    // groups order lexicographically
    assert_eq!(
        decode("apple:1").cmp_group_and_workspace(&decode("banana:1")),
        Ordering::Less
    );
    // within a group, absent slot first, then ascending slots
    assert_eq!(
        decode("1:web").cmp_group_and_workspace(&decode("web:1")),
        Ordering::Less
    );
    assert_eq!(
        decode("web:2").cmp_group_and_workspace(&decode("web:10")),
        Ordering::Less
    );
    // the numeric id takes no part
    assert!(decode("9:web:1").eq_group_and_workspace(&decode("1:web:1")));
    assert!(!decode("web:1").eq_group_and_workspace(&decode("web:2")));
}

#[test]
fn list_decodes_every_name() {
    let names = vec!["1".to_string(), "web:2".to_string()];
    let ids = WorkspaceID::list(&names);
    assert_eq!(ids.len(), 2);
    assert!(matches!(ids[0], WorkspaceID::JustI3ID(1)));
    assert!(matches!(&ids[1], WorkspaceID::GroupWithWorkspace(g, 2) if g == "web"));
}
