//! The renumbering engine.
//!
//! After a mutation may have duplicated ids or left a slot unnumbered, the
//! engine restores the invariant that every numeric id is unique.  Bare
//! numeric ids are reserved and never touched; every other identifier, in
//! ascending `(group, slot)` order, receives the next id after the largest
//! reserved one (starting at 1 when there is none).  The engine plans the
//! work: it returns the renames to issue, old identifier and new, in
//! order.

use vstd::prelude::*;
use vstd::multiset::Multiset;
use core::cmp::Ordering;
use crate::order::{id_key_eq, id_le, id_lt, lemma_id_le_trans, lemma_id_trichotomy};
use crate::workspace_id::{encode_spec, rename_cmd_spec, with_i3_id_spec, IdView, WorkspaceID};

verus! {

broadcast use
    vstd::seq_lib::group_to_multiset_ensures,
    vstd::seq_lib::to_multiset_insert,
    vstd::multiset::group_multiset_axioms,
;

/// The views of a sequence of identifiers.
pub open spec fn id_views(s: Seq<WorkspaceID>) -> Seq<IdView> {
    Seq::new(s.len(), |i: int| s[i]@)
}

/// The views of a sequence of rename pairs.
pub open spec fn pair_views(s: Seq<(WorkspaceID, WorkspaceID)>) -> Seq<(IdView, IdView)> {
    Seq::new(s.len(), |i: int| (s[i].0@, s[i].1@))
}

/// Ascending `(group, slot)` order.
pub open spec fn sorted_ids(s: Seq<IdView>) -> bool {
    forall|i: int, j: int| 0 <= i < j < s.len() ==> id_le(#[trigger] s[i], #[trigger] s[j])
}

/// Insert an identifier into an ordered sequence, after everything it
/// does not strictly precede; a tie keeps the earlier identifier first.
pub open spec fn insert_ordered(v: IdView, s: Seq<IdView>) -> Seq<IdView>
    decreases s.len(),
{
    if s.len() == 0 {
        seq![v]
    } else if id_lt(v, s[0]) {
        seq![v] + s
    } else {
        seq![s[0]] + insert_ordered(v, s.drop_first())
    }
}

/// The stable `(group, slot)` ordering of a snapshot: identifiers with
/// equal keys keep their snapshot order.
pub open spec fn sort_spec(s: Seq<IdView>) -> Seq<IdView>
    decreases s.len(),
{
    if s.len() == 0 {
        Seq::empty()
    } else {
        insert_ordered(s.last(), sort_spec(s.drop_last()))
    }
}

/// Where the ordered insert lands: at the first position whose element
/// the inserted one strictly precedes.
proof fn lemma_insert_ordered_at(v: IdView, s: Seq<IdView>, j: int)
    requires
        0 <= j <= s.len(),
        forall|k: int| 0 <= k < j ==> !id_lt(v, #[trigger] s[k]),
        j < s.len() ==> id_lt(v, s[j]),
    ensures
        insert_ordered(v, s) =~= s.insert(j, v),
    decreases j,
{
    if j == 0 {
        if s.len() == 0 {
            assert(insert_ordered(v, s) =~= s.insert(0, v));
        } else {
            assert(s.insert(0, v) =~= seq![v] + s);
        }
    } else {
        let d = s.drop_first();
        assert(forall|k: int| 0 <= k < j - 1 ==> #[trigger] d[k] == s[k + 1]);
        if j - 1 < d.len() {
            assert(d[j - 1] == s[j]);
        }
        lemma_insert_ordered_at(v, d, j - 1);
        assert(seq![s[0]] + d.insert(j - 1, v) =~= s.insert(j, v));
    }
}

/// The largest bare numeric id, when one exists.
pub open spec fn max_just(s: Seq<IdView>) -> Option<int>
    decreases s.len(),
{
    if s.len() == 0 {
        None
    } else {
        let rest = max_just(s.drop_last());
        match s.last() {
            IdView::JustI3ID(n) => match rest {
                None => Some(n),
                Some(m) => Some(if n > m { n } else { m }),
            },
            _ => rest,
        }
    }
}

/// The first id the engine hands out: one past the largest bare id, or 1.
pub open spec fn base_id(s: Seq<IdView>) -> int {
    match max_just(s) {
        None => 1,
        Some(m) => m + 1,
    }
}

/// The identifiers the engine renumbers: everything that is not a bare
/// numeric id, in the order given.
pub open spec fn grouped_ids(s: Seq<IdView>) -> Seq<IdView>
    decreases s.len(),
{
    if s.len() == 0 {
        Seq::empty()
    } else {
        let rest = grouped_ids(s.drop_last());
        if s.last() is JustI3ID {
            rest
        } else {
            rest.push(s.last())
        }
    }
}

/// Every new id the plan needs fits in an `i64`.
pub open spec fn reassign_fits(s: Seq<IdView>) -> bool {
    &&& grouped_ids(s).len() <= i64::MAX
    &&& base_id(s) + grouped_ids(s).len() - 1 <= i64::MAX
}

/// What the renumbering plan promises: the renamed identifiers are
/// exactly the non-bare ones, walked in ascending `(group, slot)` order —
/// stably, so re-running on an unchanged snapshot reissues the same
/// assignments in the same order — and the `k`-th of them receives id
/// `base_id + k`, its group and slot untouched.
pub open spec fn reassign_post(s: Seq<IdView>, plan: Seq<(IdView, IdView)>) -> bool {
    &&& plan.map_values(|p: (IdView, IdView)| p.0) == grouped_ids(sort_spec(s))
    &&& sorted_ids(plan.map_values(|p: (IdView, IdView)| p.0))
    &&& plan.map_values(|p: (IdView, IdView)| p.0).to_multiset() == grouped_ids(s).to_multiset()
    &&& plan.len() == grouped_ids(s).len()
    &&& forall|k: int|
        0 <= k < plan.len() ==> (#[trigger] plan[k]).1 == with_i3_id_spec(plan[k].0, base_id(s) + k)
}

/// A bare id in the sequence never exceeds the largest bare id.
pub proof fn lemma_element_le_max(s: Seq<IdView>, i: int)
    requires
        0 <= i < s.len(),
        s[i] is JustI3ID,
    ensures
        max_just(s) is Some,
        s[i]->JustI3ID_0 <= max_just(s)->0,
    decreases s.len(),
{
    if i < s.len() - 1 {
        assert(s.drop_last()[i] == s[i]);
        lemma_element_le_max(s.drop_last(), i);
    }
}

/// The largest bare id is one of the bare ids.
pub proof fn lemma_max_just_is_element(s: Seq<IdView>)
    requires
        max_just(s) is Some,
    ensures
        exists|i: int|
            0 <= i < s.len() && s[i] is JustI3ID && s[i]->JustI3ID_0 == max_just(s)->0,
    decreases s.len(),
{
    let m = max_just(s)->0;
    if s.last() is JustI3ID && s.last()->JustI3ID_0 == m {
        assert(s[s.len() - 1] == s.last());
    } else {
        lemma_max_just_is_element(s.drop_last());
        let i = choose|i: int|
            0 <= i < s.drop_last().len() && s.drop_last()[i] is JustI3ID && s.drop_last()[
                i
            ]->JustI3ID_0 == max_just(s.drop_last())->0;
        assert(s[i] == s.drop_last()[i]);
    }
}

/// Extending the walk by one identifier extends the renumbered ones by it
/// exactly when it is not a bare id.
proof fn lemma_grouped_take_step(s: Seq<IdView>, i: int)
    requires
        0 <= i < s.len(),
    ensures
        grouped_ids(s.take(i + 1)) == if s[i] is JustI3ID {
            grouped_ids(s.take(i))
        } else {
            grouped_ids(s.take(i)).push(s[i])
        },
{
    assert(s.take(i + 1).drop_last() =~= s.take(i));
    assert(s.take(i + 1).last() == s[i]);
}

/// A prefix of the walk never renumbers more than the whole walk.
proof fn lemma_grouped_take_le(s: Seq<IdView>, i: int)
    requires
        0 <= i <= s.len(),
    ensures
        grouped_ids(s.take(i)).len() <= grouped_ids(s).len(),
    decreases s.len() - i,
{
    if i == s.len() {
        assert(s.take(i) =~= s);
    } else {
        lemma_grouped_take_step(s, i);
        lemma_grouped_take_le(s, i + 1);
    }
}

/// The same step, for the largest bare id.
proof fn lemma_max_just_take_step(s: Seq<IdView>, i: int)
    requires
        0 <= i < s.len(),
    ensures
        max_just(s.take(i + 1)) == match s[i] {
            IdView::JustI3ID(n) => match max_just(s.take(i)) {
                None => Some(n as int),
                Some(m) => Some(if n > m { n as int } else { m }),
            },
            _ => max_just(s.take(i)),
        },
{
    assert(s.take(i + 1).drop_last() =~= s.take(i));
    assert(s.take(i + 1).last() == s[i]);
}

/// Inserting into a sequence inserts its view.
proof fn lemma_id_views_insert(s: Seq<WorkspaceID>, j: int, x: WorkspaceID)
    requires
        0 <= j <= s.len(),
    ensures
        id_views(s.insert(j, x)) =~= id_views(s).insert(j, x@),
{
    s.insert_ensures(j, x);
    id_views(s).insert_ensures(j, x@);
}

/// Does `a` precede or tie `b` in the `(group, slot)` order?
fn key_le(a: &WorkspaceID, b: &WorkspaceID) -> (r: bool)
    ensures
        r == id_le(a@, b@),
{
    proof {
        lemma_id_trichotomy(a@, b@);
    }
    match a.cmp_group_and_workspace(b) {
        Ordering::Greater => false,
        _ => true,
    }
}

/// Insert an identifier into a sorted vector, keeping it sorted; a tie
/// goes after what is already there.
fn insert_sorted(out: &mut Vec<WorkspaceID>, x: WorkspaceID)
    requires
        sorted_ids(id_views(old(out)@)),
    ensures
        sorted_ids(id_views(final(out)@)),
        id_views(final(out)@) == insert_ordered(x@, id_views(old(out)@)),
        id_views(final(out)@).to_multiset() == id_views(old(out)@).to_multiset().insert(x@),
        final(out)@.len() == old(out)@.len() + 1,
{
    let n = out.len();
    let mut j: usize = 0;
    while j < n && key_le(&out[j], &x)
        invariant
            0 <= j <= n,
            n == out@.len(),
            out@ == old(out)@,
            sorted_ids(id_views(out@)),
            forall|k: int| 0 <= k < j ==> id_le(#[trigger] id_views(out@)[k], x@),
        decreases n - j,
    {
        j = j + 1;
    }
    proof {
        if j < n {
            lemma_id_trichotomy(id_views(out@)[j as int], x@);
        }
    }
    let ghost v0 = id_views(out@);
    proof {
        assert forall|k: int| 0 <= k < j implies !id_lt(x@, #[trigger] v0[k]) by {
            lemma_id_trichotomy(v0[k], x@);
        }
        lemma_insert_ordered_at(x@, v0, j as int);
    }
    out.insert(j, x);
    proof {
        lemma_id_views_insert(old(out)@, j as int, x);
        let v1 = id_views(out@);
        assert(v1 =~= v0.insert(j as int, x@));
        assert(v1 =~= insert_ordered(x@, v0));
        v0.insert_ensures(j as int, x@);
        assert forall|p: int, q: int| 0 <= p < q < v1.len() implies id_le(v1[p], v1[q]) by {
            if q < j {
                assert(v1[p] == v0[p] && v1[q] == v0[q]);
            } else if q == j {
                assert(v1[q] == x@ && v1[p] == v0[p]);
            } else if p < j {
                assert(v1[p] == v0[p] && v1[q] == v0[q - 1]);
                if j <= q - 1 {
                    // p before the insertion point, q after it
                    assert(id_lt(x@, v0[j as int]) || p < j);
                }
            } else if p == j {
                assert(v1[p] == x@ && v1[q] == v0[q - 1]);
                assert(id_lt(x@, v0[j as int]));
                if q - 1 > j {
                    lemma_id_le_trans(x@, v0[j as int], v0[q - 1]);
                }
            } else {
                assert(v1[p] == v0[p - 1] && v1[q] == v0[q - 1]);
            }
        }
        assert(v1.to_multiset() == v0.to_multiset().insert(x@));
    }
}

/// Sort identifiers into ascending `(group, slot)` order, stably: equal
/// keys keep their snapshot order.
pub fn sort_ids(ids: &Vec<WorkspaceID>) -> (r: Vec<WorkspaceID>)
    ensures
        sorted_ids(id_views(r@)),
        id_views(r@) == sort_spec(id_views(ids@)),
        id_views(r@).to_multiset() == id_views(ids@).to_multiset(),
        r@.len() == ids@.len(),
{
    let ghost vs = id_views(ids@);
    let mut out: Vec<WorkspaceID> = Vec::new();
    let mut i: usize = 0;
    proof {
        assert(id_views(ids@.take(0)) =~= Seq::<IdView>::empty());
        assert(id_views(out@) =~= Seq::<IdView>::empty());
        assert(vs.take(0) =~= Seq::<IdView>::empty());
        assert(sort_spec(vs.take(0)) =~= Seq::<IdView>::empty());
    }
    while i < ids.len()
        invariant
            0 <= i <= ids@.len(),
            vs == id_views(ids@),
            out@.len() == i,
            sorted_ids(id_views(out@)),
            id_views(out@) == sort_spec(vs.take(i as int)),
            id_views(out@).to_multiset() == id_views(ids@.take(i as int)).to_multiset(),
        decreases ids@.len() - i,
    {
        let x = ids[i].clone();
        proof {
            assert(id_views(ids@.take(i + 1)) =~= id_views(ids@.take(i as int)).push(ids@[
                i as int
            ]@));
            assert(vs.take(i + 1).drop_last() =~= vs.take(i as int));
            assert(vs.take(i + 1).last() == vs[i as int]);
            assert(x@ == vs[i as int]);
        }
        insert_sorted(&mut out, x);
        proof {
            assert(id_views(out@) == insert_ordered(vs[i as int], sort_spec(vs.take(i as int))));
            assert(sort_spec(vs.take(i + 1)) == insert_ordered(
                vs[i as int],
                sort_spec(vs.take(i as int)),
            ));
        }
        i = i + 1;
    }
    proof {
        assert(ids@.take(ids@.len() as int) =~= ids@);
        assert(vs.take(ids@.len() as int) =~= vs);
    }
    out
}

/// Plan the renumbering for a registry snapshot.  Bare numeric ids are
/// kept; every other identifier, in ascending `(group, slot)` order, is
/// renamed to itself with the next free id attached.  `None` exactly when
/// a needed id would not fit in an `i64`.
pub fn reassign_i3_ids(ids: &Vec<WorkspaceID>) -> (r: Option<Vec<(WorkspaceID, WorkspaceID)>>)
    ensures
        r is Some <==> reassign_fits(id_views(ids@)),
        r is Some ==> reassign_post(id_views(ids@), pair_views(r->0@)),
{
    let ghost s = id_views(ids@);
    let sorted = sort_ids(ids);

    // the largest bare id, from the snapshot
    let mut max: Option<i64> = None;
    let mut i: usize = 0;
    proof {
        assert(s.take(0) =~= Seq::<IdView>::empty());
    }
    while i < ids.len()
        invariant
            0 <= i <= ids@.len(),
            s == id_views(ids@),
            match max {
                None => max_just(s.take(i as int)) is None,
                Some(m) => max_just(s.take(i as int)) == Some(m as int),
            },
        decreases ids@.len() - i,
    {
        proof {
            lemma_max_just_take_step(s, i as int);
        }
        if ids[i].is_just_i3_id() {
            let n = match ids[i].i3_id() {
                Some(n) => n,
                None => 0,  // unreachable: a bare id always has one
            };
            max = match max {
                None => Some(n),
                Some(m) => Some(if n > m { n } else { m }),
            };
        }
        i = i + 1;
    }
    proof {
        assert(s.take(ids@.len() as int) =~= s);
    }

    // how many identifiers need a new id
    let mut count: usize = 0;
    let mut i: usize = 0;
    while i < sorted.len()
        invariant
            0 <= i <= sorted@.len(),
            count == grouped_ids(id_views(sorted@).take(i as int)).len(),
            count <= i,
        decreases sorted@.len() - i,
    {
        proof {
            lemma_grouped_take_step(id_views(sorted@), i as int);
        }
        if !sorted[i].is_just_i3_id() {
            count = count + 1;
        }
        i = i + 1;
    }
    let ghost sv = id_views(sorted@);
    proof {
        assert(sv.take(sorted@.len() as int) =~= sv);
        lemma_grouped_multiset(s, sv);
    }

    // every id the plan hands out must fit
    let base_wide: i128 = match max {
        None => 1,
        Some(m) => (m as i128) + 1,
    };
    proof {
        assert(base_wide as int == base_id(s));
    }
    if !(count as i128 <= i64::MAX as i128 && base_wide + (count as i128) - 1
        <= i64::MAX as i128) {
        proof {
            assert(!reassign_fits(s));
        }
        return None;
    }
    if count == 0 {
        let plan: Vec<(WorkspaceID, WorkspaceID)> = Vec::new();
        proof {
            if max is Some {
                lemma_max_just_is_element(s);
                let w = choose|w: int|
                    0 <= w < s.len() && s[w] is JustI3ID && s[w]->JustI3ID_0 == max_just(s)->0;
                assert(s[w] == ids@[w]@);
            }
            assert(reassign_fits(s));
            assert(grouped_ids(s) =~= Seq::<IdView>::empty());
            assert(grouped_ids(sv) =~= Seq::<IdView>::empty());
            assert(pair_views(plan@).map_values(|p: (IdView, IdView)| p.0) =~= grouped_ids(s));
            assert(pair_views(plan@).map_values(|p: (IdView, IdView)| p.0) =~= grouped_ids(
                sort_spec(s),
            ));
            assert(reassign_post(s, pair_views(plan@)));
        }
        return Some(plan);
    }
    let base: i64 = base_wide as i64;
    proof {
        assert(base as int == base_id(s));
    }

    // the plan: walk in sorted order, skipping bare ids
    let mut plan: Vec<(WorkspaceID, WorkspaceID)> = Vec::new();
    let mut i: usize = 0;
    proof {
        assert(sv.take(0) =~= Seq::<IdView>::empty());
        assert(pair_views(plan@).map_values(|p: (IdView, IdView)| p.0) =~= grouped_ids(
            sv.take(0),
        ));
    }
    while i < sorted.len()
        invariant
            0 <= i <= sorted@.len(),
            sv == id_views(sorted@),
            s == id_views(ids@),
            sorted_ids(sv),
            base as int == base_id(s),
            count == grouped_ids(sv).len(),
            count == grouped_ids(s).len(),
            count >= 1,
            count <= i64::MAX,
            base + count - 1 <= i64::MAX,
            pair_views(plan@).map_values(|p: (IdView, IdView)| p.0) =~= grouped_ids(
                sv.take(i as int),
            ),
            forall|k: int|
                0 <= k < plan@.len() ==> (#[trigger] pair_views(plan@)[k]).1 == with_i3_id_spec(
                    pair_views(plan@)[k].0,
                    base + k,
                ),
        decreases sorted@.len() - i,
    {
        proof {
            lemma_grouped_take_step(sv, i as int);
            lemma_grouped_take_le(sv, i + 1);
        }
        if !sorted[i].is_just_i3_id() {
            let k = plan.len();
            proof {
                assert(plan@.len() == grouped_ids(sv.take(i as int)).len());
                assert(k + 1 <= count);
            }
            let ghost before = plan@;
            let new_id = sorted[i].clone().with_i3_id(base + (k as i64));
            plan.push((sorted[i].clone(), new_id));
            proof {
                assert(pair_views(plan@).map_values(|p: (IdView, IdView)| p.0) =~= grouped_ids(
                    sv.take(i + 1),
                ));
                assert forall|q: int|
                    0 <= q < plan@.len() implies (#[trigger] pair_views(plan@)[q]).1
                    == with_i3_id_spec(pair_views(plan@)[q].0, base + q) by {
                    if q < before.len() {
                        assert(plan@[q] == before[q]);
                        assert(pair_views(before)[q].1 == with_i3_id_spec(
                            pair_views(before)[q].0,
                            base + q,
                        ));
                        assert(pair_views(plan@)[q] == pair_views(before)[q]);
                    } else {
                        assert(plan@[q].0@ == sv[i as int] && plan@[q].1@ == new_id@);
                        assert(pair_views(plan@)[q] == (sv[i as int], new_id@));
                    }
                }
            }
        }
        i = i + 1;
    }
    proof {
        assert(sv.take(sorted@.len() as int) =~= sv);
        assert(reassign_fits(s));
        let olds = pair_views(plan@).map_values(|p: (IdView, IdView)| p.0);
        assert(olds =~= grouped_ids(sv));
        assert(sv == sort_spec(s));
        lemma_grouped_sorted(sv);
        assert(reassign_post(s, pair_views(plan@)));
    }
    Some(plan)
}

/// The commands a plan turns into: one rename per pair whose name
/// actually changes.  A pair already carrying its assigned id would
/// rename a workspace to its own name; those are skipped to spare the
/// window manager the churn.
pub open spec fn plan_commands(plan: Seq<(IdView, IdView)>) -> Seq<Seq<char>>
    decreases plan.len(),
{
    if plan.len() == 0 {
        Seq::empty()
    } else {
        let rest = plan_commands(plan.drop_last());
        let p = plan.last();
        if encode_spec(p.0) == encode_spec(p.1) {
            rest
        } else {
            rest.push(rename_cmd_spec(p.0, p.1))
        }
    }
}

/// The rename commands of a plan, in order, no-change renames skipped.
pub fn rename_commands(plan: &Vec<(WorkspaceID, WorkspaceID)>) -> (r: Vec<String>)
    ensures
        r.deep_view() == plan_commands(pair_views(plan@)),
{
    let ghost pv = pair_views(plan@);
    let mut out: Vec<String> = Vec::new();
    let n = plan.len();
    let mut i: usize = 0;
    proof {
        assert(pv.take(0) =~= Seq::<(IdView, IdView)>::empty());
        assert(out.deep_view() =~= plan_commands(pv.take(0)));
    }
    while i < n
        invariant
            0 <= i <= n,
            n == plan@.len(),
            pv == pair_views(plan@),
            out.deep_view() =~= plan_commands(pv.take(i as int)),
        decreases n - i,
    {
        proof {
            assert(pv.take(i + 1).drop_last() =~= pv.take(i as int));
            assert(pv.take(i + 1).last() == pv[i as int]);
        }
        let old_name = plan[i].0.i3_workspace_name();
        let new_name = plan[i].1.i3_workspace_name();
        if !crate::order::str_eq(old_name.as_str(), new_name.as_str()) {
            out.push(plan[i].0.rename(&plan[i].1));
        }
        proof {
            assert(out.deep_view() =~= plan_commands(pv.take(i + 1)));
        }
        i = i + 1;
    }
    proof {
        assert(pv.take(n as int) =~= pv);
    }
    out
}

/// Sequences with the same contents renumber the same identifiers.
proof fn lemma_grouped_multiset(a: Seq<IdView>, b: Seq<IdView>)
    requires
        a.to_multiset() == b.to_multiset(),
    ensures
        grouped_ids(a).to_multiset() == grouped_ids(b).to_multiset(),
        grouped_ids(a).len() == grouped_ids(b).len(),
{
    lemma_grouped_of_multiset(a);
    lemma_grouped_of_multiset(b);
    assert(grouped_ids(a).to_multiset().len() == grouped_ids(b).to_multiset().len());
}

/// The renumbered contents are a function of the snapshot's contents.
proof fn lemma_grouped_of_multiset(s: Seq<IdView>)
    ensures
        grouped_ids(s).to_multiset() == s.to_multiset().filter(|v: IdView| !(v is JustI3ID)),
    decreases s.len(),
{
    if s.len() == 0 {
        assert(s.to_multiset() =~= Multiset::<IdView>::empty());
        assert(grouped_ids(s).to_multiset() =~= Multiset::<IdView>::empty());
        assert(s.to_multiset().filter(|v: IdView| !(v is JustI3ID)) =~= Multiset::<
            IdView,
        >::empty());
    } else {
        lemma_grouped_of_multiset(s.drop_last());
        let p = |v: IdView| !(v is JustI3ID);
        assert(s =~= s.drop_last().push(s.last()));
        assert(s.to_multiset() == s.drop_last().to_multiset().insert(s.last()));
        if p(s.last()) {
            assert(grouped_ids(s).to_multiset() == grouped_ids(s.drop_last()).to_multiset().insert(
                s.last(),
            ));
            assert(s.drop_last().to_multiset().insert(s.last()).filter(p)
                =~= s.drop_last().to_multiset().filter(p).insert(s.last()));
        } else {
            assert(s.drop_last().to_multiset().insert(s.last()).filter(p)
                =~= s.drop_last().to_multiset().filter(p));
        }
    }
}

/// Renumbering walks a sorted snapshot in order.
proof fn lemma_grouped_sorted(s: Seq<IdView>)
    requires
        sorted_ids(s),
    ensures
        sorted_ids(grouped_ids(s)),
    decreases s.len(),
{
    if s.len() > 0 {
        assert(forall|i: int, j: int|
            0 <= i < j < s.len() - 1 ==> id_le(#[trigger] s.drop_last()[i], #[trigger] s.drop_last()[j]));
        lemma_grouped_sorted(s.drop_last());
        if !(s.last() is JustI3ID) {
            lemma_grouped_subset(s.drop_last());
        }
    }
}

/// Everything the engine renumbers comes from the snapshot, in order.
proof fn lemma_grouped_subset(s: Seq<IdView>)
    ensures
        forall|k: int|
            0 <= k < grouped_ids(s).len() ==> exists|i: int|
                0 <= i < s.len() && #[trigger] grouped_ids(s)[k] == s[i],
    decreases s.len(),
{
    if s.len() > 0 {
        lemma_grouped_subset(s.drop_last());
        assert forall|k: int| 0 <= k < grouped_ids(s).len() implies exists|i: int|
            0 <= i < s.len() && #[trigger] grouped_ids(s)[k] == s[i] by {
            let rest = grouped_ids(s.drop_last());
            if k < rest.len() {
                let i = choose|i: int| 0 <= i < s.drop_last().len() && rest[k] == s.drop_last()[i];
                assert(s.drop_last()[i] == s[i]);
                assert(grouped_ids(s)[k] == rest[k]);
            } else {
                assert(grouped_ids(s)[k] == s.last());
                assert(s[s.len() - 1] == s.last());
            }
        }
    }
}

/// Renumbering law: identifiers that are bare numeric ids keep their ids
/// untouched, and every other identifier receives a strictly increasing
/// id starting at one past the largest bare id (at 1 when there is none),
/// handed out in ascending `(group, slot)` order; its group and slot are
/// unchanged, and when the bare ids were distinct, no two identifiers end
/// up sharing an id.
pub proof fn lemma_reassign_no_collision(s: Seq<IdView>, plan: Seq<(IdView, IdView)>)
    requires
        reassign_post(s, plan),
        forall|i: int, j: int|
            0 <= i < j < s.len() && s[i] is JustI3ID && s[j] is JustI3ID ==> (#[trigger] s[i])
                != (#[trigger] s[j]),
    ensures
        forall|k: int| 0 <= k < plan.len() ==> (#[trigger] plan[k]).1.num() == Some(base_id(s) + k),
        forall|k: int|
            0 <= k < plan.len() ==> (#[trigger] plan[k]).1.group() == plan[k].0.group() && plan[
                k
            ].1.slot() == plan[k].0.slot(),
        forall|k: int, l: int|
            0 <= k < l < plan.len() ==> (#[trigger] plan[k]).1.num() != (#[trigger] plan[l]).1.num(),
        forall|k: int, i: int|
            0 <= k < plan.len() && 0 <= i < s.len() && (#[trigger] s[i]) is JustI3ID ==> (
            #[trigger] plan[k]).1.num() != s[i].num(),
{
    assert forall|k: int, i: int|
        0 <= k < plan.len() && 0 <= i < s.len() && (#[trigger] s[i]) is JustI3ID implies (
    #[trigger] plan[k]).1.num() != s[i].num() by {
        lemma_element_le_max(s, i);
        assert(plan[k].1.num() == Some(base_id(s) + k));
        assert(base_id(s) + k > s[i]->JustI3ID_0);
    }
}

} // verus!
