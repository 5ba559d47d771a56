//! Typed views over a registry snapshot.
//!
//! The window manager is the source of truth for which workspaces exist;
//! a snapshot of its answer — each workspace's name and whether it is
//! focused — is handed in as plain records, and everything here derives
//! typed identifiers and lookups from it.  Snapshots are never cached:
//! the window manager may change between operations.

use vstd::prelude::*;
use crate::order::str_eq;
use crate::workspace_id::{
    decode_spec, focus_cmd_spec, opt_str_view, with_group_spec, with_group_workspace_spec, IdView,
    WorkspaceID,
};
use crate::Error;

verus! {

/// One workspace as the window manager reports it: its name and whether
/// it holds the focus.
pub struct I3Workspace {
    pub name: String,
    pub focused: bool,
}

/// The mathematical shape of a reported workspace.
pub struct RecView {
    pub name: Seq<char>,
    pub focused: bool,
}

impl View for I3Workspace {
    type V = RecView;

    open spec fn view(&self) -> RecView {
        RecView { name: self.name@, focused: self.focused }
    }
}

/// A reported workspace together with the identifier its name decodes to.
pub struct Workspace {
    workspace_with_group: WorkspaceID,
    name: String,
    focused: bool,
}

/// The mathematical shape of a typed workspace record.
pub struct WsView {
    pub id: IdView,
    pub name: Seq<char>,
    pub focused: bool,
}

impl View for Workspace {
    type V = WsView;

    closed spec fn view(&self) -> WsView {
        WsView { id: self.workspace_with_group@, name: self.name@, focused: self.focused }
    }
}

/// The views of a snapshot's records.
pub open spec fn rec_views(s: Seq<I3Workspace>) -> Seq<RecView> {
    Seq::new(s.len(), |i: int| s[i]@)
}

/// The views of a sequence of typed records.
pub open spec fn ws_views(s: Seq<Workspace>) -> Seq<WsView> {
    Seq::new(s.len(), |i: int| s[i]@)
}

/// What a reported workspace becomes once its name is decoded.
pub open spec fn typed_view(r: RecView) -> WsView {
    WsView { id: decode_spec(r.name), name: r.name, focused: r.focused }
}

/// Does some record carry this name?
pub open spec fn has_name(s: Seq<RecView>, name: Seq<char>) -> bool {
    exists|i: int| 0 <= i < s.len() && (#[trigger] s[i]).name == name
}

/// Does some record satisfy the predicate?
pub open spec fn has_where(s: Seq<WsView>, p: spec_fn(WsView) -> bool) -> bool {
    exists|i: int| 0 <= i < s.len() && p(#[trigger] s[i])
}

/// The index of the first record satisfying the predicate (meaningful
/// when one exists).
pub open spec fn first_where(s: Seq<WsView>, p: spec_fn(WsView) -> bool) -> int
    decreases s.len(),
{
    if s.len() == 0 {
        0
    } else if p(s[0]) {
        0
    } else {
        1 + first_where(s.drop_first(), p)
    }
}

/// When some record satisfies the predicate, `first_where` names the
/// first of them.
pub proof fn lemma_first_where(s: Seq<WsView>, p: spec_fn(WsView) -> bool)
    requires
        has_where(s, p),
    ensures
        0 <= first_where(s, p) < s.len(),
        p(s[first_where(s, p)]),
        forall|k: int| 0 <= k < first_where(s, p) ==> !p(#[trigger] s[k]),
    decreases s.len(),
{
    if !p(s[0]) {
        let d = s.drop_first();
        assert(has_where(d, p)) by {
            let i = choose|i: int| 0 <= i < s.len() && p(s[i]);
            assert(d[i - 1] == s[i]);
        }
        lemma_first_where(d, p);
        assert forall|k: int| 0 <= k < first_where(s, p) implies !p(#[trigger] s[k]) by {
            if k > 0 {
                assert(s[k] == d[k - 1]);
            }
        }
        assert(s[first_where(s, p)] == d[first_where(d, p)]);
    }
}

/// A record that holds the focus.
pub open spec fn focused_pred() -> spec_fn(WsView) -> bool {
    |w: WsView| w.focused
}

/// Does some record hold the focus?
pub open spec fn has_focused(s: Seq<WsView>) -> bool {
    has_where(s, focused_pred())
}

impl Workspace {
    /// Wrap one reported workspace, decoding its name.
    pub fn of_i3_workspace(workspace: I3Workspace) -> (r: Self)
        ensures
            r@ == typed_view(workspace@),
    {
        let workspace_with_group = WorkspaceID::of_i3_workspace(workspace.name.as_str());
        Workspace { workspace_with_group, name: workspace.name, focused: workspace.focused }
    }

    /// Find the workspace with exactly this name.  Fails with `NotFound`
    /// exactly when no record carries the name.
    pub fn of_i3_workspace_name(records: Vec<I3Workspace>, name: &str) -> (r: Result<Self, Error>)
        ensures
            r is Ok <==> has_name(rec_views(records@), name@),
            r is Ok ==> exists|i: int|
                0 <= i < records@.len() && r->Ok_0@ == typed_view(#[trigger] rec_views(records@)[i])
                    && rec_views(records@)[i].name == name@,
            r is Err ==> r->Err_0 is NotFound,
    {
        let ghost rs = rec_views(records@);
        let mut i: usize = 0;
        let n = records.len();
        while i < n
            invariant
                0 <= i <= n,
                n == records@.len(),
                rs == rec_views(records@),
                forall|k: int| 0 <= k < i ==> (#[trigger] rs[k]).name != name@,
            decreases n - i,
        {
            if str_eq(records[i].name.as_str(), name) {
                proof {
                    assert(rs[i as int] == records@[i as int]@);
                }
                let w = vec_take_at(records, i);
                proof {
                    assert(w@ == rs[i as int]);
                    assert(rs[i as int].name == name@);
                }
                return Ok(Self::of_i3_workspace(w));
            }
            i = i + 1;
        }
        Err(Error::NotFound(String::from_str("Workspace not found")))
    }

    /// The identifier the workspace's name decodes to (or that a
    /// transformation produced).
    pub fn id(&self) -> (r: &WorkspaceID)
        ensures
            r@ == self@.id,
    {
        &self.workspace_with_group
    }

    /// The name the window manager reported.
    pub fn i3_name(&self) -> (r: &String)
        ensures
            r@ == self@.name,
    {
        &self.name
    }

    /// Does this workspace hold the focus?
    pub fn is_focused(&self) -> (r: bool)
        ensures
            r == self@.focused,
    {
        self.focused
    }

    /// The same record with the identifier's group replaced.
    pub fn with_group(self, group: Option<&str>) -> (r: Self)
        ensures
            r@.id == with_group_spec(self@.id, opt_str_view(group)),
            r@.name == self@.name,
            r@.focused == self@.focused,
    {
        Workspace {
            workspace_with_group: self.workspace_with_group.with_group(group),
            name: self.name,
            focused: self.focused,
        }
    }

    /// The same record with the identifier's slot replaced.
    pub fn with_group_workspace(self, group_workspace: i64) -> (r: Self)
        ensures
            r@.id == with_group_workspace_spec(self@.id, group_workspace as int),
            r@.name == self@.name,
            r@.focused == self@.focused,
    {
        Workspace {
            workspace_with_group: self.workspace_with_group.with_group_workspace(group_workspace),
            name: self.name,
            focused: self.focused,
        }
    }

    /// The command that focuses this workspace.
    pub fn focus(&self) -> (r: String)
        ensures
            r@ == focus_cmd_spec(self@.id),
    {
        self.workspace_with_group.focus()
    }

    /// The slot to remember this workspace by: its slot, or for a bare
    /// numeric id — whose id acts as the slot of the ungrouped space —
    /// the id itself.
    pub fn history_slot(&self) -> (r: Option<i64>)
        ensures
            match self@.id.slot() {
                Some(w) => r is Some && r->0 as int == w,
                None => match self@.id {
                    IdView::JustI3ID(n) => r is Some && r->0 as int == n,
                    _ => r is None,
                },
            },
    {
        match self.workspace_with_group.group_workspace() {
            Some(w) => Some(w),
            None => {
                if self.workspace_with_group.is_just_i3_id() {
                    self.workspace_with_group.i3_id()
                } else {
                    None
                }
            },
        }
    }

    /// Wrap every record of a snapshot.
    pub fn list(records: Vec<I3Workspace>) -> (r: Vec<Self>)
        ensures
            r@.len() == records@.len(),
            forall|i: int|
                0 <= i < r@.len() ==> (#[trigger] r@[i])@ == typed_view(rec_views(records@)[i]),
    {
        let ghost rs = rec_views(records@);
        let mut out: Vec<Workspace> = Vec::new();
        let mut rest = records;
        let total = rest.len();
        proof {
            assert(rs.len() == total);
        }
        let mut i: usize = 0;
        while rest.len() > 0
            invariant
                out@.len() == i,
                i + rest@.len() == rs.len(),
                rs.len() <= usize::MAX,
                forall|k: int| 0 <= k < i ==> (#[trigger] out@[k])@ == typed_view(rs[k]),
                forall|k: int| 0 <= k < rest@.len() ==> (#[trigger] rest@[k])@ == rs[i + k],
            decreases rest@.len(),
    {
            let w = rest.remove(0);
            proof {
                assert(w@ == rs[i as int]);
                assert(forall|k: int|
                    0 <= k < rest@.len() ==> (#[trigger] rest@[k])@ == rs[i + 1 + k]);
            }
            out.push(Self::of_i3_workspace(w));
            i = i + 1;
        }
        out
    }

    /// The workspace that holds the focus.  Fails with `NotFound` exactly
    /// when no record reports focus.
    pub fn get_focused(workspaces: &Vec<Workspace>) -> (r: Result<&Workspace, Error>)
        ensures
            r is Ok <==> has_focused(ws_views(workspaces@)),
            r is Ok ==> r->Ok_0@ == ws_views(workspaces@)[first_where(
                ws_views(workspaces@),
                focused_pred(),
            )],
            r is Err ==> r->Err_0 is NotFound,
    {
        let ghost ws = ws_views(workspaces@);
        let mut i: usize = 0;
        let n = workspaces.len();
        while i < n
            invariant
                0 <= i <= n,
                n == workspaces@.len(),
                ws == ws_views(workspaces@),
                forall|k: int| 0 <= k < i ==> !(#[trigger] ws[k]).focused,
            decreases n - i,
        {
            if workspaces[i].focused {
                proof {
                    assert(ws[i as int] == workspaces@[i as int]@);
                    assert(focused_pred()(ws[i as int]));
                    lemma_first_where(ws, focused_pred());
                    assert(first_where(ws, focused_pred()) == i as int);
                }
                return Ok(&workspaces[i]);
            }
            i = i + 1;
        }
        proof {
            if has_focused(ws) {
                lemma_first_where(ws, focused_pred());
            }
        }
        Err(Error::NotFound(String::from_str("No focused workspace")))
    }
}

/// Move element `i` out of a vector, dropping the rest.
fn vec_take_at(v: Vec<I3Workspace>, i: usize) -> (r: I3Workspace)
    requires
        i < v@.len(),
    ensures
        r@ == v@[i as int]@,
{
    let mut v = v;
    v.remove(i)
}

} // verus!
