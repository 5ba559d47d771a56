//! The last-visited history: which slot was focused last in each group.
//!
//! The store is a mapping from group key — the group name, or the empty
//! string for the ungrouped workspaces — to the last slot visited there.
//! It lives in memory here; the caller loads it from and writes it back
//! to its persistent home, treating a missing or unreadable file as an
//! empty mapping.  Reading and updating happen in one transaction: the
//! current group's slot is recorded and the target group's last slot
//! returned, so one load and one store suffice.

use vstd::prelude::*;
use crate::order::str_eq;

verus! {

/// The group key a group name maps to: the name itself, or the empty
/// string for the ungrouped workspaces.
pub open spec fn key_view(g: Option<Seq<char>>) -> Seq<char> {
    match g {
        Some(s) => s,
        None => Seq::empty(),
    }
}

/// The mapping a list of entries denotes: later entries win.
pub open spec fn entries_map(s: Seq<(String, i64)>) -> Map<Seq<char>, int>
    decreases s.len(),
{
    if s.len() == 0 {
        Map::empty()
    } else {
        entries_map(s.drop_last()).insert(s.last().0@, s.last().1 as int)
    }
}

/// The per-group last-visited slots.
pub struct History {
    entries: Vec<(String, i64)>,
}

impl View for History {
    type V = Map<Seq<char>, int>;

    closed spec fn view(&self) -> Map<Seq<char>, int> {
        entries_map(self.entries@)
    }
}

/// The latest entry for a key decides the lookup; no entry means no
/// record.
proof fn lemma_entries_lookup(s: Seq<(String, i64)>, key: Seq<char>, i: int)
    requires
        0 <= i < s.len(),
        s[i].0@ == key,
        forall|j: int| i < j < s.len() ==> (#[trigger] s[j]).0@ != key,
    ensures
        entries_map(s).contains_key(key),
        entries_map(s)[key] == s[i].1 as int,
    decreases s.len(),
{
    if i < s.len() - 1 {
        assert(s[s.len() - 1].0@ != key);
        assert(forall|j: int| 0 <= j < s.len() - 1 ==> #[trigger] s.drop_last()[j] == s[j]);
        lemma_entries_lookup(s.drop_last(), key, i);
    } else {
        assert(s.last() == s[i]);
    }
}

/// A key no entry carries is absent from the mapping.
proof fn lemma_entries_absent(s: Seq<(String, i64)>, key: Seq<char>)
    requires
        forall|j: int| 0 <= j < s.len() ==> (#[trigger] s[j]).0@ != key,
    ensures
        !entries_map(s).contains_key(key),
    decreases s.len(),
{
    if s.len() > 0 {
        assert(s[s.len() - 1].0@ != key);
        assert(forall|j: int| 0 <= j < s.len() - 1 ==> #[trigger] s.drop_last()[j] == s[j]);
        lemma_entries_absent(s.drop_last(), key);
    }
}

impl History {
    /// An empty history.
    pub fn new() -> (r: Self)
        ensures
            r@ == Map::<Seq<char>, int>::empty(),
    {
        History { entries: Vec::new() }
    }

    /// The history a list of loaded entries denotes, later entries
    /// winning as when they had been recorded in order.
    pub fn from_entries(entries: Vec<(String, i64)>) -> (r: Self)
        ensures
            r@ == entries_map(entries@),
    {
        History { entries }
    }

    /// The entries to persist; replaying them in order rebuilds the
    /// mapping.
    pub fn entries(&self) -> (r: &Vec<(String, i64)>)
        ensures
            entries_map(r@) == self@,
    {
        &self.entries
    }

    /// Record a slot for a key.
    fn set(&mut self, key: String, value: i64)
        ensures
            final(self)@ == old(self)@.insert(key@, value as int),
    {
        let ghost before = self.entries@;
        let ghost k = key@;
        self.entries.push((key, value));
        proof {
            assert(self.entries@.drop_last() =~= before);
            assert(self.entries@.last().0@ == k);
            assert(entries_map(self.entries@) == entries_map(before).insert(
                k,
                self.entries@.last().1 as int,
            ));
        }
    }

    /// Look a key up: the latest record wins.
    fn get(&self, key: &str) -> (r: Option<i64>)
        ensures
            r is Some <==> self@.contains_key(key@),
            r is Some ==> self@[key@] == r->0 as int,
    {
        let n = self.entries.len();
        let mut i: usize = n;
        while i > 0
            invariant
                0 <= i <= n,
                n == self.entries@.len(),
                forall|j: int| i <= j < n ==> (#[trigger] self.entries@[j]).0@ != key@,
            decreases i,
        {
            i = i - 1;
            if str_eq(self.entries[i].0.as_str(), key) {
                proof {
                    assert(self.entries@[i as int].0@ == key@);
                    lemma_entries_lookup(self.entries@, key@, i as int);
                }
                return Some(self.entries[i].1);
            }
        }
        proof {
            lemma_entries_absent(self.entries@, key@);
        }
        None
    }
}

/// The key a group is recorded under: its name, or the empty string for
/// the ungrouped workspaces.
pub fn group_to_key(group: Option<&str>) -> (r: String)
    ensures
        r@ == key_view(crate::workspace_id::opt_str_view(group)),
{
    match group {
        Some(g) => String::from_str(g),
        None => String::new(),
    }
}

/// Record the current group's slot and return the target group's last
/// recorded slot, in one transaction.  The lookup reads the mapping after
/// the update, so asking about the group just recorded returns the slot
/// just written.
pub fn update_and_get(
    history: &mut History,
    current_group: Option<&str>,
    current_workspace: i64,
    target_group: Option<&str>,
) -> (r: Option<i64>)
    ensures
        final(history)@ == old(history)@.insert(
            key_view(crate::workspace_id::opt_str_view(current_group)),
            current_workspace as int,
        ),
        r is Some <==> final(history)@.contains_key(
            key_view(crate::workspace_id::opt_str_view(target_group)),
        ),
        r is Some ==> final(history)@[key_view(crate::workspace_id::opt_str_view(target_group))]
            == r->0 as int,
{
    let current_key = group_to_key(current_group);
    history.set(current_key, current_workspace);
    let target_key = group_to_key(target_group);
    history.get(target_key.as_str())
}

/// The last slot recorded for a group, read-only.
pub fn get_last_workspace(history: &History, group: Option<&str>) -> (r: Option<i64>)
    ensures
        r is Some <==> history@.contains_key(key_view(crate::workspace_id::opt_str_view(group))),
        r is Some ==> history@[key_view(crate::workspace_id::opt_str_view(group))] == r->0 as int,
{
    let key = group_to_key(group);
    history.get(key.as_str())
}

/// Recording one group's slot leaves every other group's record exactly
/// as it was: what the transaction returned for a different target, a
/// later lookup of that target still returns.
pub proof fn lemma_update_and_get_independent(
    m: Map<Seq<char>, int>,
    current: Seq<char>,
    slot: int,
    target: Seq<char>,
)
    requires
        current != target,
    ensures
        m.insert(current, slot).contains_key(target) == m.contains_key(target),
        m.contains_key(target) ==> m.insert(current, slot)[target] == m[target],
{
}

} // verus!
