//! The hybrid workspace identifier and its codec.
//!
//! A workspace name string carries up to three components, joined with
//! colons: the window manager's numeric id, a group name, and a slot
//! number inside the group.  Five shapes occur, one per combination of
//! present components.  Decoding is total: every string decodes to some
//! identifier, ambiguity resolved by trying to read the outer fields as
//! integers before folding extra colons into the group name.
//!
//! ```text
//! 1           id only           JustI3ID(1)
//! 1:web       id and group      I3IDWithGroup(1, "web")
//! web         group only        JustGroup("web")
//! web:1       group and slot    GroupWithWorkspace("web", 1)
//! 1:web:1     all three         Full(1, "web", 1)
//! other:web:1 group and slot    GroupWithWorkspace("other:web", 1)
//! other:web:a group only        JustGroup("other:web:a")
//! 1:1         id and group      I3IDWithGroup(1, "1")
//! aa:bb:cc    group only        JustGroup("aa:bb:cc")
//! ```

use vstd::prelude::*;
use crate::dec::{i64_dec, i64_to_string, parse_i64, parses_as_i64, signed_val};
use crate::fields::{join_colon, join_fields, segs, split_colons};
use crate::fields::lemma_segs_basic;

verus! {

/// The mathematical shape of an identifier: the same five variants as
/// [`WorkspaceID`], over unbounded integers and character sequences.
pub enum IdView {
    JustI3ID(int),
    I3IDWithGroup(int, Seq<char>),
    JustGroup(Seq<char>),
    GroupWithWorkspace(Seq<char>, int),
    Full(int, Seq<char>, int),
}

impl IdView {
    /// The numeric id component, when present.
    pub open spec fn num(self) -> Option<int> {
        match self {
            IdView::JustI3ID(n) => Some(n),
            IdView::I3IDWithGroup(n, _) => Some(n),
            IdView::JustGroup(_) => None,
            IdView::GroupWithWorkspace(_, _) => None,
            IdView::Full(n, _, _) => Some(n),
        }
    }

    /// The group component, when present.
    pub open spec fn group(self) -> Option<Seq<char>> {
        match self {
            IdView::JustI3ID(_) => None,
            IdView::I3IDWithGroup(_, g) => Some(g),
            IdView::JustGroup(g) => Some(g),
            IdView::GroupWithWorkspace(g, _) => Some(g),
            IdView::Full(_, g, _) => Some(g),
        }
    }

    /// The slot component, when present.
    pub open spec fn slot(self) -> Option<int> {
        match self {
            IdView::JustI3ID(_) => None,
            IdView::I3IDWithGroup(_, _) => None,
            IdView::JustGroup(_) => None,
            IdView::GroupWithWorkspace(_, w) => Some(w),
            IdView::Full(_, _, w) => Some(w),
        }
    }
}

/// The rule for a name of three or more fields: `a` is the first field,
/// `c` the last, `b` everything in between rejoined, and `whole` the whole
/// name.  Outer fields that read as integers win; what does not fit folds
/// into the group name.
pub open spec fn triplet_spec(a: Seq<char>, b: Seq<char>, c: Seq<char>, whole: Seq<char>) -> IdView {
    if parses_as_i64(a) && parses_as_i64(c) {
        IdView::Full(signed_val(a), b, signed_val(c))
    } else if parses_as_i64(a) {
        IdView::I3IDWithGroup(signed_val(a), b + seq![':'] + c)
    } else if parses_as_i64(c) {
        IdView::GroupWithWorkspace(a + seq![':'] + b, signed_val(c))
    } else {
        IdView::JustGroup(whole)
    }
}

/// What a workspace name decodes to.  Total: every string has a value.
pub open spec fn decode_spec(s: Seq<char>) -> IdView {
    let f = segs(s);
    if f.len() == 1 {
        if parses_as_i64(f[0]) {
            IdView::JustI3ID(signed_val(f[0]))
        } else {
            IdView::JustGroup(s)
        }
    } else if f.len() == 2 {
        if parses_as_i64(f[0]) {
            IdView::I3IDWithGroup(signed_val(f[0]), f[1])
        } else if parses_as_i64(f[1]) {
            IdView::GroupWithWorkspace(f[0], signed_val(f[1]))
        } else {
            IdView::JustGroup(s)
        }
    } else {
        triplet_spec(f[0], join_colon(f.subrange(1, f.len() - 1)), f.last(), s)
    }
}

/// The name an identifier encodes to: its present components, in the
/// order id, group, slot, joined with colons.
pub open spec fn encode_spec(v: IdView) -> Seq<char> {
    match v {
        IdView::JustI3ID(n) => i64_dec(n),
        IdView::I3IDWithGroup(n, g) => i64_dec(n) + seq![':'] + g,
        IdView::JustGroup(g) => g,
        IdView::GroupWithWorkspace(g, w) => g + seq![':'] + i64_dec(w),
        IdView::Full(n, g, w) => i64_dec(n) + seq![':'] + g + seq![':'] + i64_dec(w),
    }
}

/// Setting the group: an id-only identifier reuses its id as the slot, so
/// a freshly grouped workspace keeps a recognizable number; clearing the
/// group keeps the slot (or nothing) as the new numeric id.
pub open spec fn with_group_spec(v: IdView, group: Option<Seq<char>>) -> IdView {
    match (v, group) {
        (IdView::JustI3ID(n), Some(g)) => IdView::Full(n, g, n),
        (IdView::JustI3ID(n), None) => IdView::JustI3ID(n),
        (IdView::I3IDWithGroup(n, _), Some(g)) => IdView::I3IDWithGroup(n, g),
        (IdView::I3IDWithGroup(n, _), None) => IdView::JustI3ID(n),
        (IdView::JustGroup(_), Some(g)) => IdView::JustGroup(g),
        (IdView::JustGroup(_), None) => IdView::JustGroup(Seq::empty()),
        (IdView::GroupWithWorkspace(_, w), Some(g)) => IdView::GroupWithWorkspace(g, w),
        (IdView::GroupWithWorkspace(_, w), None) => IdView::JustI3ID(w),
        (IdView::Full(n, _, w), Some(g)) => IdView::Full(n, g, w),
        (IdView::Full(_, _, w), None) => IdView::JustI3ID(w),
    }
}

/// Setting the slot; an id-only identifier replaces its id instead.
pub open spec fn with_group_workspace_spec(v: IdView, w: int) -> IdView {
    match v {
        IdView::JustI3ID(_) => IdView::JustI3ID(w),
        IdView::I3IDWithGroup(n, g) => IdView::Full(n, g, w),
        IdView::JustGroup(g) => IdView::GroupWithWorkspace(g, w),
        IdView::GroupWithWorkspace(g, _) => IdView::GroupWithWorkspace(g, w),
        IdView::Full(n, g, _) => IdView::Full(n, g, w),
    }
}

/// Setting the numeric id; the group and the slot are untouched.
pub open spec fn with_i3_id_spec(v: IdView, n: int) -> IdView {
    match v {
        IdView::JustI3ID(_) => IdView::JustI3ID(n),
        IdView::I3IDWithGroup(_, g) => IdView::I3IDWithGroup(n, g),
        IdView::JustGroup(g) => IdView::I3IDWithGroup(n, g),
        IdView::GroupWithWorkspace(g, w) => IdView::Full(n, g, w),
        IdView::Full(_, g, w) => IdView::Full(n, g, w),
    }
}

/// The view of an `Option<&str>` group argument.
pub open spec fn opt_str_view(g: Option<&str>) -> Option<Seq<char>> {
    match g {
        Some(s) => Some(s@),
        None => None,
    }
}

/// The command that focuses the workspace named `name`.
pub open spec fn focus_cmd_spec(v: IdView) -> Seq<char> {
    "workspace "@ + encode_spec(v)
}

/// The command that renames the workspace named by `a` to the name of `b`.
pub open spec fn rename_cmd_spec(a: IdView, b: IdView) -> Seq<char> {
    "rename workspace \""@ + encode_spec(a) + "\" to \""@ + encode_spec(b) + "\""@
}

/// A workspace identity: the window manager's numeric id, a group name
/// and an intra-group slot, in the five combinations that occur.
pub enum WorkspaceID {
    JustI3ID(i64),
    I3IDWithGroup(i64, String),
    JustGroup(String),
    GroupWithWorkspace(String, i64),
    Full(i64, String, i64),
}

impl Clone for WorkspaceID {
    /// A clone denotes the same identifier.
    fn clone(&self) -> (r: Self)
        ensures
            r@ == self@,
    {
        match self {
            WorkspaceID::JustI3ID(n) => WorkspaceID::JustI3ID(*n),
            WorkspaceID::I3IDWithGroup(n, g) => WorkspaceID::I3IDWithGroup(*n, g.clone()),
            WorkspaceID::JustGroup(g) => WorkspaceID::JustGroup(g.clone()),
            WorkspaceID::GroupWithWorkspace(g, w) => {
                WorkspaceID::GroupWithWorkspace(g.clone(), *w)
            },
            WorkspaceID::Full(n, g, w) => WorkspaceID::Full(*n, g.clone(), *w),
        }
    }
}

impl View for WorkspaceID {
    type V = IdView;

    open spec fn view(&self) -> IdView {
        match self {
            WorkspaceID::JustI3ID(n) => IdView::JustI3ID(*n as int),
            WorkspaceID::I3IDWithGroup(n, g) => IdView::I3IDWithGroup(*n as int, g@),
            WorkspaceID::JustGroup(g) => IdView::JustGroup(g@),
            WorkspaceID::GroupWithWorkspace(g, w) => IdView::GroupWithWorkspace(g@, *w as int),
            WorkspaceID::Full(n, g, w) => IdView::Full(*n as int, g@, *w as int),
        }
    }
}

impl WorkspaceID {
    /// Decode every name of a registry snapshot.
    pub fn list(names: &Vec<String>) -> (r: Vec<WorkspaceID>)
        ensures
            r@.len() == names@.len(),
            forall|i: int| 0 <= i < r@.len() ==> (#[trigger] r@[i])@ == decode_spec(names@[i]@),
    {
        let mut r: Vec<WorkspaceID> = Vec::new();
        let mut i: usize = 0;
        while i < names.len()
            invariant
                0 <= i <= names@.len(),
                r@.len() == i,
                forall|k: int| 0 <= k < i ==> (#[trigger] r@[k])@ == decode_spec(names@[k]@),
            decreases names@.len() - i,
        {
            r.push(Self::of_i3_workspace(names[i].as_str()));
            i = i + 1;
        }
        r
    }

    /// The numeric id component, when present.
    pub fn i3_id(&self) -> (r: Option<i64>)
        ensures
            r is Some <==> self@.num() is Some,
            r is Some ==> self@.num() == Some(r->0 as int),
    {
        match self {
            Self::JustI3ID(i3_id) => Some(*i3_id),
            Self::I3IDWithGroup(i3_id, _) => Some(*i3_id),
            Self::JustGroup(_) => None,
            Self::GroupWithWorkspace(_, _) => None,
            Self::Full(i3_id, _, _) => Some(*i3_id),
        }
    }

    /// Is this identifier a bare numeric id?
    pub fn is_just_i3_id(&self) -> (r: bool)
        ensures
            r == (self@ is JustI3ID),
    {
        matches!(self, Self::JustI3ID(_))
    }

    /// Encode the identifier as the workspace's name string.
    pub fn i3_workspace_name(&self) -> (r: String)
        ensures
            r@ == encode_spec(self@),
    {
        match self {
            Self::JustI3ID(i3_id) => i64_to_string(*i3_id),
            Self::I3IDWithGroup(i3_id, group_name) => {
                let r = i64_to_string(*i3_id).concat(":").concat(group_name.as_str());
                proof {
                    reveal_strlit(":");
                    assert(r@ =~= encode_spec(self@));
                }
                r
            },
            Self::JustGroup(group_name) => group_name.clone(),
            Self::GroupWithWorkspace(group_name, group_workspace) => {
                let r = group_name.clone().concat(":").concat(
                    i64_to_string(*group_workspace).as_str(),
                );
                proof {
                    reveal_strlit(":");
                    assert(r@ =~= encode_spec(self@));
                }
                r
            },
            Self::Full(i3_id, group_name, group_workspace) => {
                let r = i64_to_string(*i3_id).concat(":").concat(group_name.as_str()).concat(
                    ":",
                ).concat(i64_to_string(*group_workspace).as_str());
                proof {
                    reveal_strlit(":");
                    assert(r@ =~= encode_spec(self@));
                }
                r
            },
        }
    }

    /// Replace, set or clear the group component.
    pub fn with_group(&self, group: Option<&str>) -> (r: Self)
        ensures
            r@ == with_group_spec(self@, opt_str_view(group)),
    {
        match (self, group) {
            (Self::JustI3ID(i3_id), Some(group_name)) => {
                Self::Full(*i3_id, group_name.to_owned(), *i3_id)
            },
            (Self::JustI3ID(i3_id), None) => Self::JustI3ID(*i3_id),
            (Self::I3IDWithGroup(i3_id, _), Some(group_name)) => {
                Self::I3IDWithGroup(*i3_id, group_name.to_owned())
            },
            (Self::I3IDWithGroup(i3_id, _), None) => Self::JustI3ID(*i3_id),
            (Self::JustGroup(_), Some(group_name)) => Self::JustGroup(group_name.to_owned()),
            (Self::JustGroup(_), None) => Self::JustGroup(String::new()),
            (Self::GroupWithWorkspace(_, group_workspace), Some(group_name)) => {
                Self::GroupWithWorkspace(group_name.to_owned(), *group_workspace)
            },
            (Self::GroupWithWorkspace(_, group_workspace), None) => {
                Self::JustI3ID(*group_workspace)
            },
            (Self::Full(i3_id, _, group_workspace), Some(group_name)) => {
                Self::Full(*i3_id, group_name.to_owned(), *group_workspace)
            },
            (Self::Full(_, _, group_workspace), None) => Self::JustI3ID(*group_workspace),
        }
    }

    /// Replace or set the slot component.
    pub fn with_group_workspace(self, group_workspace: i64) -> (r: Self)
        ensures
            r@ == with_group_workspace_spec(self@, group_workspace as int),
    {
        match self {
            Self::JustI3ID(_) => Self::JustI3ID(group_workspace),
            Self::I3IDWithGroup(i3_id, group_name) => {
                Self::Full(i3_id, group_name, group_workspace)
            },
            Self::JustGroup(group_name) => Self::GroupWithWorkspace(group_name, group_workspace),
            Self::GroupWithWorkspace(group_name, _) => {
                Self::GroupWithWorkspace(group_name, group_workspace)
            },
            Self::Full(i3_id, group_name, _) => Self::Full(i3_id, group_name, group_workspace),
        }
    }

    /// Replace or set the numeric id component.
    pub fn with_i3_id(self, i3_id: i64) -> (r: Self)
        ensures
            r@ == with_i3_id_spec(self@, i3_id as int),
    {
        match self {
            Self::JustI3ID(_) => Self::JustI3ID(i3_id),
            Self::I3IDWithGroup(_, group_name) => Self::I3IDWithGroup(i3_id, group_name),
            Self::JustGroup(group_name) => Self::I3IDWithGroup(i3_id, group_name),
            Self::GroupWithWorkspace(group_name, group_workspace) => {
                Self::Full(i3_id, group_name, group_workspace)
            },
            Self::Full(_, group_name, group_workspace) => {
                Self::Full(i3_id, group_name, group_workspace)
            },
        }
    }

    /// The group component, when present.
    pub fn group(&self) -> (r: Option<&String>)
        ensures
            r is Some <==> self@.group() is Some,
            r is Some ==> self@.group() == Some(r->0@),
    {
        match self {
            Self::JustI3ID(_) => None,
            Self::I3IDWithGroup(_, group_name) => Some(group_name),
            Self::JustGroup(group_name) => Some(group_name),
            Self::GroupWithWorkspace(group_name, _) => Some(group_name),
            Self::Full(_, group_name, _) => Some(group_name),
        }
    }

    /// The slot component, when present.
    pub fn group_workspace(&self) -> (r: Option<i64>)
        ensures
            r is Some <==> self@.slot() is Some,
            r is Some ==> self@.slot() == Some(r->0 as int),
    {
        match self {
            Self::JustI3ID(_) => None,
            Self::I3IDWithGroup(_, _) => None,
            Self::JustGroup(_) => None,
            Self::GroupWithWorkspace(_, group_workspace) => Some(*group_workspace),
            Self::Full(_, _, group_workspace) => Some(*group_workspace),
        }
    }

    /// Apply the triplet rule to the outer fields and the rejoined middle
    /// of a name of three or more fields.
    pub fn of_triplet(i3_id: &str, group_name: &str, group_workspace: &str) -> (r: Self)
        ensures
            r@ == triplet_spec(
                i3_id@,
                group_name@,
                group_workspace@,
                i3_id@ + seq![':'] + group_name@ + seq![':'] + group_workspace@,
            ),
    {
        match (parse_i64(i3_id), parse_i64(group_workspace)) {
            (Some(n), Some(w)) => Self::Full(n, group_name.to_owned(), w),
            (Some(n), None) => {
                let g = group_name.to_owned().concat(":").concat(group_workspace);
                proof {
                    reveal_strlit(":");
                    assert(g@ =~= group_name@ + seq![':'] + group_workspace@);
                }
                Self::I3IDWithGroup(n, g)
            },
            (None, Some(w)) => {
                let g = i3_id.to_owned().concat(":").concat(group_name);
                proof {
                    reveal_strlit(":");
                    assert(g@ =~= i3_id@ + seq![':'] + group_name@);
                }
                Self::GroupWithWorkspace(g, w)
            },
            (None, None) => {
                let g = i3_id.to_owned().concat(":").concat(group_name).concat(":").concat(
                    group_workspace,
                );
                proof {
                    reveal_strlit(":");
                    assert(g@ =~= i3_id@ + seq![':'] + group_name@ + seq![':'] + group_workspace@);
                }
                Self::JustGroup(g)
            },
        }
    }

    /// Decode a workspace name.  Total: any string yields an identifier.
    pub fn of_i3_workspace(i3_workspace_name: &str) -> (r: Self)
        ensures
            r@ == decode_spec(i3_workspace_name@),
    {
        let ghost s = i3_workspace_name@;
        let fields = split_colons(i3_workspace_name);
        proof {
            lemma_segs_basic(s);
            assert(fields.deep_view() == segs(s));
            assert(forall|k: int|
                0 <= k < fields@.len() ==> (#[trigger] fields@[k])@ == segs(s)[k]);
        }
        let len = fields.len();
        if len == 1 {
            match parse_i64(fields[0].as_str()) {
                Some(n) => Self::JustI3ID(n),
                None => Self::JustGroup(i3_workspace_name.to_owned()),
            }
        } else if len == 2 {
            match parse_i64(fields[0].as_str()) {
                Some(n) => Self::I3IDWithGroup(n, fields[1].clone()),
                None => match parse_i64(fields[1].as_str()) {
                    Some(w) => Self::GroupWithWorkspace(fields[0].clone(), w),
                    None => Self::JustGroup(i3_workspace_name.to_owned()),
                },
            }
        } else {
            let middle = join_fields(&fields, 1, len - 1);
            proof {
                assert(middle@ == join_colon(segs(s).subrange(1, segs(s).len() - 1)));
            }
            let first = parse_i64(fields[0].as_str());
            let last = parse_i64(fields[len - 1].as_str());
            match (first, last) {
                (Some(n), Some(w)) => Self::Full(n, middle, w),
                (Some(n), None) => {
                    let g = middle.concat(":").concat(fields[len - 1].as_str());
                    proof {
                        reveal_strlit(":");
                        assert(g@ =~= middle@ + seq![':'] + segs(s).last());
                    }
                    Self::I3IDWithGroup(n, g)
                },
                (None, Some(w)) => {
                    let g = fields[0].clone().concat(":").concat(middle.as_str());
                    proof {
                        reveal_strlit(":");
                        assert(g@ =~= segs(s)[0] + seq![':'] + middle@);
                    }
                    Self::GroupWithWorkspace(g, w)
                },
                (None, None) => Self::JustGroup(i3_workspace_name.to_owned()),
            }
        }
    }

    /// The command that focuses this workspace.
    pub fn focus(&self) -> (r: String)
        ensures
            r@ == focus_cmd_spec(self@),
    {
        let r = String::from_str("workspace ").concat(self.i3_workspace_name().as_str());
        proof {
            assert(r@ =~= focus_cmd_spec(self@));
        }
        r
    }

    /// The command that renames this workspace to the name of `new_id`.
    pub fn rename(&self, new_id: &Self) -> (r: String)
        ensures
            r@ == rename_cmd_spec(self@, new_id@),
    {
        let r = String::from_str("rename workspace \"").concat(
            self.i3_workspace_name().as_str(),
        ).concat("\" to \"").concat(new_id.i3_workspace_name().as_str()).concat("\"");
        proof {
            assert(r@ =~= rename_cmd_spec(self@, new_id@));
        }
        r
    }
}

} // verus!
