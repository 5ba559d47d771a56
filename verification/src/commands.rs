//! The command surface: what each invocation asks for.
//!
//! Every command resolves to a [`Request`], a plain value naming the
//! operation and its arguments; an empty group name on the command line
//! means the ungrouped workspaces.  The listing commands also compute
//! their output lines here, from a decoded snapshot.

use vstd::prelude::*;
use crate::order::str_eq;
use crate::workspace_id::{encode_spec, IdView, WorkspaceID};
use crate::history::key_view;

verus! {

/// A fully resolved command.
pub enum Request {
    /// Focus a group, `None` for the ungrouped workspaces.
    FocusGroup(Option<String>),
    /// Focus a slot of the focused group.
    FocusWorkspace(i64),
    /// Focus a workspace by its raw name.
    FocusI3Workspace(String),
    /// Rename the focused group, `None` to ungroup it.
    RenameGroup(Option<String>),
    /// Move the focused window to a slot of the focused group.
    MoveWindowToGroupWorkspace(i64),
    /// Move the focused window to a workspace by its raw name.
    MoveWindowToWorkspace(String),
    /// List the known groups.
    ListGroups,
    /// List the raw workspace names.
    ListWmWorkspaces,
}

/// The view of an optional owned group name.
pub open spec fn opt_string_view(g: &Option<String>) -> Option<Seq<char>> {
    match g {
        Some(s) => Some(s@),
        None => None,
    }
}

/// An empty name on the command line means the ungrouped workspaces.
pub open spec fn name_to_group(s: Seq<char>) -> Option<Seq<char>> {
    if s.len() == 0 {
        None
    } else {
        Some(s)
    }
}

/// Turn a command-line name into a group argument.
fn normalize_group(name: &String) -> (r: Option<String>)
    ensures
        opt_string_view(&r) == name_to_group(name@),
{
    if name.as_str().is_empty() {
        None
    } else {
        Some(name.clone())
    }
}

/// Focus a group by name.
pub struct FocusGroup {
    pub name: String,
}

impl FocusGroup {
    /// The request: focus the named group, the ungrouped workspaces when
    /// the name is empty.
    pub fn run(&self) -> (r: Request)
        ensures
            r is FocusGroup && opt_string_view(&r->FocusGroup_0) == name_to_group(self.name@),
    {
        Request::FocusGroup(normalize_group(&self.name))
    }
}

/// Focus a slot of the focused group.
pub struct FocusWorkspace {
    pub group_workspace: i64,
}

impl FocusWorkspace {
    /// The request: focus the slot.
    pub fn run(&self) -> (r: Request)
        ensures
            r == Request::FocusWorkspace(self.group_workspace),
    {
        Request::FocusWorkspace(self.group_workspace)
    }
}

/// Focus a workspace by its raw window-manager name.
pub struct FocusI3Workspace {
    pub name: String,
}

impl FocusI3Workspace {
    /// The request: focus the named workspace.
    pub fn run(&self) -> (r: Request)
        ensures
            r is FocusI3Workspace && r->FocusI3Workspace_0@ == self.name@,
    {
        Request::FocusI3Workspace(self.name.clone())
    }
}

/// The focus operations.
pub enum Focus {
    Group(FocusGroup),
    Workspace(FocusWorkspace),
    WmWorkspace(FocusI3Workspace),
}

impl Focus {
    /// The request of the chosen focus operation.
    pub fn run(&self) -> (r: Request)
        ensures
            match self {
                Focus::Group(c) => r is FocusGroup && opt_string_view(&r->FocusGroup_0)
                    == name_to_group(c.name@),
                Focus::Workspace(c) => r == Request::FocusWorkspace(c.group_workspace),
                Focus::WmWorkspace(c) => r is FocusI3Workspace && r->FocusI3Workspace_0@
                    == c.name@,
            },
    {
        match self {
            Focus::Group(group) => group.run(),
            Focus::Workspace(workspace) => workspace.run(),
            Focus::WmWorkspace(workspace) => workspace.run(),
        }
    }
}

/// Rename the focused group.
pub struct RenameGroup {
    pub name: String,
}

impl RenameGroup {
    /// The request: rename the focused group to the given name, to no
    /// group when the name is empty.
    pub fn run(&self) -> (r: Request)
        ensures
            r is RenameGroup && opt_string_view(&r->RenameGroup_0) == name_to_group(self.name@),
    {
        Request::RenameGroup(normalize_group(&self.name))
    }
}

/// The rename operations.
pub enum Rename {
    Group(RenameGroup),
}

impl Rename {
    /// The request of the chosen rename operation.
    pub fn run(&self) -> (r: Request)
        ensures
            match self {
                Rename::Group(c) => r is RenameGroup && opt_string_view(&r->RenameGroup_0)
                    == name_to_group(c.name@),
            },
    {
        match self {
            Rename::Group(group) => group.run(),
        }
    }
}

/// Move the focused window to a slot of the focused group.
pub struct MoveWindowToGroupWorkspace {
    pub workspace: i64,
}

impl MoveWindowToGroupWorkspace {
    /// The request: move the window to the slot.
    pub fn run(&self) -> (r: Request)
        ensures
            r == Request::MoveWindowToGroupWorkspace(self.workspace),
    {
        Request::MoveWindowToGroupWorkspace(self.workspace)
    }
}

/// Move the focused window to a workspace by its raw name.
pub struct MoveWindowToWorkspace {
    pub workspace: String,
}

impl MoveWindowToWorkspace {
    /// The request: move the window to the named workspace.
    pub fn run(&self) -> (r: Request)
        ensures
            r is MoveWindowToWorkspace && r->MoveWindowToWorkspace_0@ == self.workspace@,
    {
        Request::MoveWindowToWorkspace(self.workspace.clone())
    }
}

/// The move operations.
pub enum Move {
    WindowToGroupWorkspace(MoveWindowToGroupWorkspace),
    WindowToWorkspace(MoveWindowToWorkspace),
}

impl Move {
    /// The request of the chosen move operation.
    pub fn run(&self) -> (r: Request)
        ensures
            match self {
                Move::WindowToGroupWorkspace(c) => r == Request::MoveWindowToGroupWorkspace(
                    c.workspace,
                ),
                Move::WindowToWorkspace(c) => r is MoveWindowToWorkspace
                    && r->MoveWindowToWorkspace_0@ == c.workspace@,
            },
    {
        match self {
            Move::WindowToGroupWorkspace(cmd) => cmd.run(),
            Move::WindowToWorkspace(cmd) => cmd.run(),
        }
    }
}

/// The listing operations.
pub enum List {
    Groups,
    WmWorkspaces,
}

/// The group lines a listing prints: each distinct group, the ungrouped
/// workspaces as the empty line, each at its first occurrence.
pub open spec fn group_lines(s: Seq<IdView>) -> Seq<Seq<char>>
    decreases s.len(),
{
    if s.len() == 0 {
        Seq::empty()
    } else {
        let rest = group_lines(s.drop_last());
        let g = key_view(s.last().group());
        if rest.contains(g) {
            rest
        } else {
            rest.push(g)
        }
    }
}

/// The name lines a listing prints: every identifier encoded back.
pub open spec fn name_lines(s: Seq<IdView>) -> Seq<Seq<char>> {
    Seq::new(s.len(), |i: int| encode_spec(s[i]))
}

/// Does the list contain this line?
fn lines_contain(lines: &Vec<String>, s: &String) -> (r: bool)
    ensures
        r == lines.deep_view().contains(s@),
{
    let mut i: usize = 0;
    let n = lines.len();
    while i < n
        invariant
            0 <= i <= n,
            n == lines@.len(),
            forall|k: int| 0 <= k < i ==> lines.deep_view()[k] != s@,
        decreases n - i,
    {
        if str_eq(lines[i].as_str(), s.as_str()) {
            proof {
                assert(lines.deep_view()[i as int] == s@);
            }
            return true;
        }
        i = i + 1;
    }
    proof {
        if lines.deep_view().contains(s@) {
            let k = choose|k: int| 0 <= k < lines.deep_view().len() && lines.deep_view()[k] == s@;
        }
    }
    false
}

impl List {
    /// The lines the listing prints, from a decoded snapshot: the
    /// distinct groups in order of first occurrence, or every raw name.
    pub fn run(&self, ids: &Vec<WorkspaceID>) -> (r: Vec<String>)
        ensures
            match self {
                List::Groups => r.deep_view() == group_lines(crate::renumber::id_views(ids@)),
                List::WmWorkspaces => r.deep_view() == name_lines(crate::renumber::id_views(ids@)),
            },
    {
        let ghost s = crate::renumber::id_views(ids@);
        match self {
            List::Groups => {
                let mut out: Vec<String> = Vec::new();
                let mut i: usize = 0;
                let n = ids.len();
                proof {
                    assert(s.take(0) =~= Seq::<IdView>::empty());
                    assert(out.deep_view() =~= group_lines(s.take(0)));
                }
                while i < n
                    invariant
                        0 <= i <= n,
                        n == ids@.len(),
                        s == crate::renumber::id_views(ids@),
                        out.deep_view() =~= group_lines(s.take(i as int)),
                    decreases n - i,
                {
                    proof {
                        assert(s.take(i + 1).drop_last() =~= s.take(i as int));
                        assert(s.take(i + 1).last() == s[i as int]);
                    }
                    let line = match ids[i].group() {
                        Some(g) => g.clone(),
                        None => String::new(),
                    };
                    proof {
                        assert(line@ == key_view(s[i as int].group()));
                    }
                    if !lines_contain(&out, &line) {
                        out.push(line);
                    }
                    proof {
                        assert(out.deep_view() =~= group_lines(s.take(i + 1)));
                    }
                    i = i + 1;
                }
                proof {
                    assert(s.take(n as int) =~= s);
                }
                out
            },
            List::WmWorkspaces => {
                let mut out: Vec<String> = Vec::new();
                let mut i: usize = 0;
                let n = ids.len();
                while i < n
                    invariant
                        0 <= i <= n,
                        n == ids@.len(),
                        s == crate::renumber::id_views(ids@),
                        out@.len() == i,
                        forall|k: int| 0 <= k < i ==> (#[trigger] out@[k])@ == encode_spec(s[k]),
                    decreases n - i,
                {
                    out.push(ids[i].i3_workspace_name());
                    i = i + 1;
                }
                proof {
                    assert forall|k: int| 0 <= k < n implies out.deep_view()[k] == name_lines(s)[k]
                        by {
                        assert(out.deep_view()[k] == out@[k]@);
                    }
                    assert(out.deep_view() =~= name_lines(s));
                }
                out
            },
        }
    }
}

} // verus!
