//! The user-facing group operations.
//!
//! Each operation looks at a registry snapshot and decides what the window
//! manager should be told: a focus command, rename commands, or a move
//! command, plus whether the renumbering engine must run afterwards
//! (creating or regrouping a slot can collide numeric ids; moving a
//! window cannot).  The caller issues the commands and, where asked,
//! takes a fresh snapshot and runs the engine on it.

use vstd::prelude::*;
use crate::registry::{
    first_where, focused_pred, has_focused, has_where, lemma_first_where, ws_views, Workspace,
    WsView,
};
use crate::renumber::pair_views;
use crate::workspace_id::{
    encode_spec, focus_cmd_spec, opt_str_view, with_group_spec, with_group_workspace_spec,
    with_i3_id_spec, IdView, WorkspaceID,
};
use crate::Error;

verus! {

/// What an operation decided: the command to issue, and whether the
/// renumbering engine must run once the command has taken effect.
pub struct Plan {
    pub command: String,
    pub renumber: bool,
}

/// The view of an optional slot argument.
pub open spec fn opt_i64_view(v: Option<i64>) -> Option<int> {
    match v {
        Some(n) => Some(n as int),
        None => None,
    }
}

/// A record whose identifier lies in this group.
pub open spec fn group_pred(g: Option<Seq<char>>) -> spec_fn(WsView) -> bool {
    |w: WsView| w.id.group() == g
}

/// A record in this group that carries this slot.
pub open spec fn group_slot_pred(g: Option<Seq<char>>, sl: int) -> spec_fn(WsView) -> bool {
    |w: WsView| w.id.group() == g && w.id.slot() == Some(sl)
}

/// The identifier `focus_group` focuses: the remembered slot of the group
/// when it still exists, else the group's first record, else a fresh
/// identifier — slot 1 of the group, or the bare id 1 when no group is
/// named.
pub open spec fn focus_group_target(
    ws: Seq<WsView>,
    g: Option<Seq<char>>,
    last: Option<int>,
) -> IdView {
    if last is Some && has_where(ws, group_slot_pred(g, last->0)) {
        ws[first_where(ws, group_slot_pred(g, last->0))].id
    } else if has_where(ws, group_pred(g)) {
        ws[first_where(ws, group_pred(g))].id
    } else {
        match g {
            Some(gn) => IdView::GroupWithWorkspace(gn, 1),
            None => IdView::JustI3ID(1),
        }
    }
}

/// Does this record's identifier lie in the group?
fn group_matches(w: &Workspace, group: Option<&str>) -> (r: bool)
    ensures
        r == (w@.id.group() == opt_str_view(group)),
{
    match (w.id().group(), group) {
        (None, None) => true,
        (Some(a), Some(b)) => crate::order::str_eq(a.as_str(), b),
        _ => false,
    }
}

/// The first record of the group, when the group has one.
fn find_group(workspaces: &Vec<Workspace>, group: Option<&str>) -> (r: Option<usize>)
    ensures
        r is Some <==> has_where(ws_views(workspaces@), group_pred(opt_str_view(group))),
        r is Some ==> r->0 < workspaces@.len() && r->0 as int == first_where(
            ws_views(workspaces@),
            group_pred(opt_str_view(group)),
        ),
{
    let ghost ws = ws_views(workspaces@);
    let ghost p = group_pred(opt_str_view(group));
    let n = workspaces.len();
    let mut i: usize = 0;
    while i < n
        invariant
            0 <= i <= n,
            n == workspaces@.len(),
            ws == ws_views(workspaces@),
            p == group_pred(opt_str_view(group)),
            forall|k: int| 0 <= k < i ==> !p(#[trigger] ws[k]),
        decreases n - i,
    {
        if group_matches(&workspaces[i], group) {
            proof {
                assert(ws[i as int] == workspaces@[i as int]@);
                assert(p(ws[i as int]));
                lemma_first_where(ws, p);
            }
            return Some(i);
        }
        i = i + 1;
    }
    proof {
        if has_where(ws, p) {
            lemma_first_where(ws, p);
        }
    }
    None
}

/// The first record of the group carrying the slot, when one exists.
fn find_group_slot(workspaces: &Vec<Workspace>, group: Option<&str>, slot: i64) -> (r: Option<
    usize,
>)
    ensures
        r is Some <==> has_where(
            ws_views(workspaces@),
            group_slot_pred(opt_str_view(group), slot as int),
        ),
        r is Some ==> r->0 < workspaces@.len() && r->0 as int == first_where(
            ws_views(workspaces@),
            group_slot_pred(opt_str_view(group), slot as int),
        ),
{
    let ghost ws = ws_views(workspaces@);
    let ghost p = group_slot_pred(opt_str_view(group), slot as int);
    let n = workspaces.len();
    let mut i: usize = 0;
    while i < n
        invariant
            0 <= i <= n,
            n == workspaces@.len(),
            ws == ws_views(workspaces@),
            p == group_slot_pred(opt_str_view(group), slot as int),
            forall|k: int| 0 <= k < i ==> !p(#[trigger] ws[k]),
        decreases n - i,
    {
        let slot_here = match workspaces[i].id().group_workspace() {
            Some(w) => w == slot,
            None => false,
        };
        if slot_here && group_matches(&workspaces[i], group) {
            proof {
                assert(ws[i as int] == workspaces@[i as int]@);
                assert(p(ws[i as int]));
                lemma_first_where(ws, p);
            }
            return Some(i);
        }
        proof {
            assert(ws[i as int] == workspaces@[i as int]@);
        }
        i = i + 1;
    }
    proof {
        if has_where(ws, p) {
            lemma_first_where(ws, p);
        }
    }
    None
}

/// Focus a group: jump to its remembered slot when it still exists, else
/// to its first record, else create a fresh slot (the bare id 1 when no
/// group is named) and ask for renumbering.
pub fn focus_group(workspaces: &Vec<Workspace>, group: Option<&str>, last_slot: Option<i64>) -> (r:
    Plan)
    ensures
        r.command@ == focus_cmd_spec(
            focus_group_target(
                ws_views(workspaces@),
                opt_str_view(group),
                opt_i64_view(last_slot),
            ),
        ),
        r.renumber == !has_where(ws_views(workspaces@), group_pred(opt_str_view(group))),
{
    let ghost ws = ws_views(workspaces@);
    let ghost g = opt_str_view(group);
    if let Some(sl) = last_slot {
        if let Some(idx) = find_group_slot(workspaces, group, sl) {
            proof {
                lemma_first_where(ws, group_slot_pred(g, sl as int));
                assert(group_pred(g)(ws[idx as int]));
            }
            return Plan { command: workspaces[idx].focus(), renumber: false };
        }
    }
    if let Some(idx) = find_group(workspaces, group) {
        return Plan { command: workspaces[idx].focus(), renumber: false };
    }
    let new_id = match group {
        Some(group_name) => WorkspaceID::GroupWithWorkspace(group_name.to_owned(), 1),
        None => WorkspaceID::JustI3ID(1),
    };
    Plan { command: new_id.focus(), renumber: true }
}

/// The identifier `focus_group_workspace` focuses: the record of the
/// focused group carrying the slot when it exists, else the focused
/// identifier with that slot set.
pub open spec fn focus_group_workspace_target(ws: Seq<WsView>, gw: int) -> IdView {
    let f = ws[first_where(ws, focused_pred())];
    if has_where(ws, group_slot_pred(f.id.group(), gw)) {
        ws[first_where(ws, group_slot_pred(f.id.group(), gw))].id
    } else {
        with_group_workspace_spec(f.id, gw)
    }
}

/// Does `focus_group_workspace` ask for renumbering?  Only when it had to
/// derive a slot that did not exist yet.
pub open spec fn focus_group_workspace_renumbers(ws: Seq<WsView>, gw: int) -> bool {
    !has_where(ws, group_slot_pred(ws[first_where(ws, focused_pred())].id.group(), gw))
}

/// Focus a slot of the currently focused group, deriving it from the
/// focused identifier when it does not exist yet.  Fails with `NotFound`
/// exactly when no record holds the focus.
pub fn focus_group_workspace(workspaces: &Vec<Workspace>, group_workspace: i64) -> (r: Result<
    Plan,
    Error,
>)
    ensures
        r is Ok <==> has_focused(ws_views(workspaces@)),
        r is Ok ==> r->Ok_0.command@ == focus_cmd_spec(
            focus_group_workspace_target(ws_views(workspaces@), group_workspace as int),
        ),
        r is Ok ==> r->Ok_0.renumber == focus_group_workspace_renumbers(
            ws_views(workspaces@),
            group_workspace as int,
        ),
        r is Err ==> r->Err_0 is NotFound,
{
    let ghost ws = ws_views(workspaces@);
    let focused = match Workspace::get_focused(workspaces) {
        Ok(w) => w,
        Err(e) => {
            return Err(e);
        },
    };
    let group = focused.id().group();
    let group_str: Option<&str> = match group {
        Some(s) => Some(s.as_str()),
        None => None,
    };
    proof {
        assert(opt_str_view(group_str) == focused@.id.group());
    }
    if let Some(idx) = find_group_slot(workspaces, group_str, group_workspace) {
        return Ok(Plan { command: workspaces[idx].focus(), renumber: false });
    }
    let target = focused.id().clone().with_group_workspace(group_workspace);
    Ok(Plan { command: target.focus(), renumber: true })
}

/// The renames a group rename issues: every record whose group matches,
/// in snapshot order, paired with the same identifier carrying the new
/// group.
pub open spec fn rename_pairs(
    ws: Seq<WsView>,
    g: Option<Seq<char>>,
    ng: Option<Seq<char>>,
) -> Seq<(IdView, IdView)>
    decreases ws.len(),
{
    if ws.len() == 0 {
        Seq::empty()
    } else {
        let rest = rename_pairs(ws.drop_last(), g, ng);
        if ws.last().id.group() == g {
            rest.push((ws.last().id, with_group_spec(ws.last().id, ng)))
        } else {
            rest
        }
    }
}

/// Extending the walk extends the renames exactly at a matching record.
proof fn lemma_rename_pairs_step(
    ws: Seq<WsView>,
    g: Option<Seq<char>>,
    ng: Option<Seq<char>>,
    i: int,
)
    requires
        0 <= i < ws.len(),
    ensures
        rename_pairs(ws.take(i + 1), g, ng) == if ws[i].id.group() == g {
            rename_pairs(ws.take(i), g, ng).push((ws[i].id, with_group_spec(ws[i].id, ng)))
        } else {
            rename_pairs(ws.take(i), g, ng)
        },
{
    assert(ws.take(i + 1).drop_last() =~= ws.take(i));
    assert(ws.take(i + 1).last() == ws[i]);
}

/// Rename a group: plan a rename for every record whose group equals
/// `group`, to the same identifier with the group set to `new_group`.
/// The caller issues the renames and then runs the renumbering engine.
pub fn rename_group(workspaces: &Vec<Workspace>, group: Option<&str>, new_group: Option<&str>) -> (
    r: Vec<(WorkspaceID, WorkspaceID)>)
    ensures
        pair_views(r@) == rename_pairs(
            ws_views(workspaces@),
            opt_str_view(group),
            opt_str_view(new_group),
        ),
{
    let ghost ws = ws_views(workspaces@);
    let ghost g = opt_str_view(group);
    let ghost ng = opt_str_view(new_group);
    let mut pairs: Vec<(WorkspaceID, WorkspaceID)> = Vec::new();
    let n = workspaces.len();
    let mut i: usize = 0;
    proof {
        assert(ws.take(0) =~= Seq::<WsView>::empty());
        assert(pair_views(pairs@) =~= rename_pairs(ws.take(0), g, ng));
    }
    while i < n
        invariant
            0 <= i <= n,
            n == workspaces@.len(),
            ws == ws_views(workspaces@),
            g == opt_str_view(group),
            ng == opt_str_view(new_group),
            pair_views(pairs@) =~= rename_pairs(ws.take(i as int), g, ng),
        decreases n - i,
    {
        proof {
            lemma_rename_pairs_step(ws, g, ng, i as int);
            assert(ws[i as int] == workspaces@[i as int]@);
        }
        if group_matches(&workspaces[i], group) {
            let old_id = workspaces[i].id().clone();
            let new_id = workspaces[i].id().clone().with_group(new_group);
            pairs.push((old_id, new_id));
            proof {
                assert(pair_views(pairs@) =~= rename_pairs(ws.take(i + 1), g, ng));
            }
        }
        i = i + 1;
    }
    proof {
        assert(ws.take(n as int) =~= ws);
    }
    pairs
}

/// The command that moves the focused window to the workspace named by
/// this identifier, without changing focus.
pub open spec fn move_cmd_spec(v: IdView) -> Seq<char> {
    "move container to workspace "@ + encode_spec(v)
}

/// The move command for an identifier.
fn move_cmd(id: &WorkspaceID) -> (r: String)
    ensures
        r@ == move_cmd_spec(id@),
{
    let r = String::from_str("move container to workspace ").concat(id.i3_workspace_name().as_str());
    proof {
        assert(r@ =~= move_cmd_spec(id@));
    }
    r
}

/// Move the focused window to the given slot of the focused group.
/// Fails with `NotFound` exactly when no record holds the focus.  Moving
/// does not renumber: a later focus or list reconciles ids.
pub fn move_window_to_group_workspace(workspaces: &Vec<Workspace>, workspace: i64) -> (r: Result<
    String,
    Error,
>)
    ensures
        r is Ok <==> has_focused(ws_views(workspaces@)),
        r is Ok ==> r->Ok_0@ == move_cmd_spec(
            with_group_workspace_spec(
                ws_views(workspaces@)[first_where(ws_views(workspaces@), focused_pred())].id,
                workspace as int,
            ),
        ),
        r is Err ==> r->Err_0 is NotFound,
{
    let focused = match Workspace::get_focused(workspaces) {
        Ok(w) => w,
        Err(e) => {
            return Err(e);
        },
    };
    let new_id = focused.id().clone().with_group_workspace(workspace);
    Ok(move_cmd(&new_id))
}

/// Move the focused window to the workspace a raw name decodes to.
pub fn move_window_to_workspace(id: &str) -> (r: String)
    ensures
        r@ == move_cmd_spec(crate::workspace_id::decode_spec(id@)),
{
    let new_id = WorkspaceID::of_i3_workspace(id);
    move_cmd(&new_id)
}

/// Focusing a group that has no record yet creates slot 1 of that group
/// — or the bare id 1 when no group is named — and triggers renumbering,
/// which attaches a numeric id without altering the group or the slot.
pub proof fn lemma_focus_group_fresh(
    ws: Seq<WsView>,
    g: Option<Seq<char>>,
    last: Option<int>,
    n: int,
)
    requires
        !has_where(ws, group_pred(g)),
    ensures
        focus_group_target(ws, g, last) == match g {
            Some(gn) => IdView::GroupWithWorkspace(gn, 1),
            None => IdView::JustI3ID(1),
        },
        with_i3_id_spec(focus_group_target(ws, g, last), n).group() == g,
        g is Some ==> with_i3_id_spec(focus_group_target(ws, g, last), n).slot() == Some(1int),
        g is None ==> with_i3_id_spec(focus_group_target(ws, g, last), n) == IdView::JustI3ID(n),
{
    if last is Some {
        if has_where(ws, group_slot_pred(g, last->0)) {
            let i = choose|i: int| 0 <= i < ws.len() && group_slot_pred(g, last->0)(ws[i]);
            assert(group_pred(g)(ws[i]));
        }
    }
}

/// Renaming a group renames exactly the records of that group — each to
/// the same identifier with the group set to the new name, so its group
/// becomes the new name — and no rename touches a record of any other
/// group.  (Clearing the group of a group-only record leaves the empty
/// group name instead, so that case is excluded.)  The renumbering run
/// that follows restores id uniqueness.
pub proof fn lemma_rename_group_exact(ws: Seq<WsView>, g: Option<Seq<char>>, ng: Option<Seq<char>>)
    requires
        ng is Some || forall|i: int|
            0 <= i < ws.len() && (#[trigger] ws[i]).id.group() == g ==> !(ws[i].id is JustGroup),
    ensures
        forall|k: int|
            0 <= k < rename_pairs(ws, g, ng).len() ==> {
                let p = #[trigger] rename_pairs(ws, g, ng)[k];
                p.0.group() == g && p.1 == with_group_spec(p.0, ng) && p.1.group() == ng
            },
        forall|i: int|
            0 <= i < ws.len() && (#[trigger] ws[i]).id.group() == g ==> exists|k: int|
                0 <= k < rename_pairs(ws, g, ng).len() && (#[trigger] rename_pairs(ws, g, ng)[k]).0
                    == ws[i].id,
        forall|i: int, k: int|
            0 <= i < ws.len() && (#[trigger] ws[i]).id.group() != g && 0 <= k < rename_pairs(
                ws,
                g,
                ng,
            ).len() ==> (#[trigger] rename_pairs(ws, g, ng)[k]).0 != ws[i].id,
    decreases ws.len(),
{
    if ws.len() > 0 {
        let d = ws.drop_last();
        assert(forall|i: int| 0 <= i < d.len() ==> #[trigger] d[i] == ws[i]);
        lemma_rename_group_exact(d, g, ng);
        let rest = rename_pairs(d, g, ng);
        let all = rename_pairs(ws, g, ng);
        if ws.last().id.group() == g {
            assert(all == rest.push((ws.last().id, with_group_spec(ws.last().id, ng))));
        }
        assert forall|i: int|
            0 <= i < ws.len() && (#[trigger] ws[i]).id.group() == g implies exists|k: int|
            0 <= k < all.len() && (#[trigger] all[k]).0 == ws[i].id by {
            if i < ws.len() - 1 {
                assert(d[i] == ws[i]);
                let k = choose|k: int| 0 <= k < rest.len() && (#[trigger] rest[k]).0 == d[i].id;
                assert(all[k].0 == ws[i].id);
            } else {
                assert(ws[i] == ws.last());
                assert(all[all.len() - 1].0 == ws[i].id);
            }
        }
    }
}

} // verus!
