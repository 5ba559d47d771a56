//! The total order on identifiers used for listing and renumbering.
//!
//! Identifiers order by `(group, slot)`: an absent group sorts before any
//! present one, group names order lexicographically by character, and
//! within a group an absent slot sorts before any present one.  The
//! numeric id takes no part: two identifiers with the same group and slot
//! are equal under this order, whatever their ids.

use vstd::prelude::*;
use core::cmp::Ordering;
use crate::workspace_id::{IdView, WorkspaceID};

verus! {

/// Strict lexicographic order on character sequences, by code point.
pub open spec fn str_lt(a: Seq<char>, b: Seq<char>) -> bool
    decreases a.len(),
{
    if b.len() == 0 {
        false
    } else if a.len() == 0 {
        true
    } else if a[0] != b[0] {
        a[0] < b[0]
    } else {
        str_lt(a.drop_first(), b.drop_first())
    }
}

/// Strict order on optional group names: absent before present.
pub open spec fn opt_group_lt(a: Option<Seq<char>>, b: Option<Seq<char>>) -> bool {
    match (a, b) {
        (Option::None, Option::Some(_)) => true,
        (Option::Some(x), Option::Some(y)) => str_lt(x, y),
        _ => false,
    }
}

/// Strict order on optional slots: absent before present.
pub open spec fn opt_slot_lt(a: Option<int>, b: Option<int>) -> bool {
    match (a, b) {
        (Option::None, Option::Some(_)) => true,
        (Option::Some(x), Option::Some(y)) => x < y,
        _ => false,
    }
}

/// Strict `(group, slot)` order on identifiers.
pub open spec fn id_lt(a: IdView, b: IdView) -> bool {
    opt_group_lt(a.group(), b.group()) || (a.group() == b.group() && opt_slot_lt(
        a.slot(),
        b.slot(),
    ))
}

/// Equality of the `(group, slot)` sort key.
pub open spec fn id_key_eq(a: IdView, b: IdView) -> bool {
    a.group() == b.group() && a.slot() == b.slot()
}

/// Non-strict `(group, slot)` order: the order the renumbering engine
/// walks identifiers in.
pub open spec fn id_le(a: IdView, b: IdView) -> bool {
    id_lt(a, b) || id_key_eq(a, b)
}

/// Two sequences with equal heads and equal tails are equal.
proof fn lemma_eq_from_parts(a: Seq<char>, b: Seq<char>)
    requires
        a.len() > 0,
        b.len() > 0,
        a[0] == b[0],
        a.drop_first() == b.drop_first(),
    ensures
        a == b,
{
    assert(a.len() == b.len()) by {
        assert(a.drop_first().len() == a.len() - 1);
        assert(b.drop_first().len() == b.len() - 1);
    }
    assert forall|i: int| 1 <= i < a.len() implies a[i] == b[i] by {
        assert(a[i] == a.drop_first()[i - 1]);
        assert(b[i] == b.drop_first()[i - 1]);
    }
    assert(a =~= b);
}

/// Exactly one of `a < b`, `a == b`, `b < a` holds for strings.
pub proof fn lemma_str_lt_trichotomy(a: Seq<char>, b: Seq<char>)
    ensures
        str_lt(a, b) || a == b || str_lt(b, a),
        str_lt(a, b) ==> a != b && !str_lt(b, a),
        a == b ==> !str_lt(a, b),
    decreases a.len(),
{
    if a.len() == 0 && b.len() == 0 {
        assert(a =~= b);
    } else if a.len() > 0 && b.len() > 0 && a[0] == b[0] {
        lemma_str_lt_trichotomy(a.drop_first(), b.drop_first());
        if a.drop_first() == b.drop_first() {
            lemma_eq_from_parts(a, b);
        }
        if a == b {
            assert(a.drop_first() =~= b.drop_first());
        }
    }
}

/// The string order is transitive.
pub proof fn lemma_str_lt_trans(a: Seq<char>, b: Seq<char>, c: Seq<char>)
    requires
        str_lt(a, b),
        str_lt(b, c),
    ensures
        str_lt(a, c),
    decreases a.len(),
{
    if a.len() > 0 && b.len() > 0 && c.len() > 0 {
        if a[0] == b[0] && b[0] == c[0] {
            lemma_str_lt_trans(a.drop_first(), b.drop_first(), c.drop_first());
        }
    }
}

/// Exactly one of `a < b`, equal keys, `b < a` holds for identifiers.
pub proof fn lemma_id_trichotomy(a: IdView, b: IdView)
    ensures
        id_lt(a, b) || id_key_eq(a, b) || id_lt(b, a),
        id_lt(a, b) ==> !id_key_eq(a, b) && !id_lt(b, a),
        id_key_eq(a, b) ==> !id_lt(a, b),
{
    match (a.group(), b.group()) {
        (Option::Some(x), Option::Some(y)) => {
            lemma_str_lt_trichotomy(x, y);
        },
        _ => {},
    }
}

/// The identifier order is transitive.
pub proof fn lemma_id_le_trans(a: IdView, b: IdView, c: IdView)
    requires
        id_le(a, b),
        id_le(b, c),
    ensures
        id_le(a, c),
{
    match (a.group(), b.group(), c.group()) {
        (Option::Some(x), Option::Some(y), Option::Some(z)) => {
            lemma_str_lt_trichotomy(x, y);
            lemma_str_lt_trichotomy(y, z);
            lemma_str_lt_trichotomy(x, z);
            if str_lt(x, y) && str_lt(y, z) {
                lemma_str_lt_trans(x, y, z);
            }
        },
        _ => {},
    }
}

/// Are two strings the same sequence of characters?
pub(crate) fn str_eq(a: &str, b: &str) -> (r: bool)
    ensures
        r == (a@ == b@),
{
    matches!(str_cmp(a, b), Ordering::Equal)
}

/// Three-way comparison of strings, by character.
fn str_cmp(a: &str, b: &str) -> (r: Ordering)
    ensures
        r == Ordering::Less <==> str_lt(a@, b@),
        r == Ordering::Equal <==> a@ == b@,
        r == Ordering::Greater <==> str_lt(b@, a@),
{
    let an = a.unicode_len();
    let bn = b.unicode_len();
    let n = if an < bn { an } else { bn };
    let mut i: usize = 0;
    while i < n
        invariant
            0 <= i <= n,
            an == a@.len(),
            bn == b@.len(),
            n == if an < bn { an } else { bn },
            a@.take(i as int) =~= b@.take(i as int),
        decreases n - i,
    {
        let ca = a.get_char(i);
        let cb = b.get_char(i);
        if ca < cb {
            proof {
                lemma_str_lt_prefix(a@, b@, i as int);
                lemma_str_lt_trichotomy(a@, b@);
            }
            return Ordering::Less;
        } else if ca > cb {
            proof {
                lemma_str_lt_prefix(b@, a@, i as int);
                lemma_str_lt_trichotomy(a@, b@);
            }
            return Ordering::Greater;
        }
        proof {
            assert(a@.take(i + 1) =~= b@.take(i + 1));
        }
        i = i + 1;
    }
    if an < bn {
        proof {
            assert(a@ =~= a@.take(an as int));
            lemma_str_lt_prefix_short(a@, b@);
            lemma_str_lt_trichotomy(a@, b@);
        }
        Ordering::Less
    } else if an > bn {
        proof {
            assert(b@ =~= b@.take(bn as int));
            lemma_str_lt_prefix_short(b@, a@);
            lemma_str_lt_trichotomy(a@, b@);
        }
        Ordering::Greater
    } else {
        proof {
            assert(a@.take(an as int) =~= a@);
            assert(b@.take(bn as int) =~= b@);
            lemma_str_lt_trichotomy(a@, b@);
        }
        Ordering::Equal
    }
}

/// A mismatch after a common prefix decides the string order.
proof fn lemma_str_lt_prefix(a: Seq<char>, b: Seq<char>, i: int)
    requires
        0 <= i < a.len(),
        i < b.len(),
        a.take(i) == b.take(i),
        a[i] < b[i],
    ensures
        str_lt(a, b),
    decreases i,
{
    if i == 0 {
    } else {
        assert(a.take(i)[0] == a[0]);
        assert(b.take(i)[0] == b[0]);
        assert(a[0] == b[0]);
        assert(a.drop_first().take(i - 1) =~= a.take(i).drop_first());
        assert(b.drop_first().take(i - 1) =~= b.take(i).drop_first());
        assert(a.drop_first()[i - 1] == a[i]);
        lemma_str_lt_prefix(a.drop_first(), b.drop_first(), i - 1);
    }
}

/// A string is less than any string it is a proper prefix of.
proof fn lemma_str_lt_prefix_short(a: Seq<char>, b: Seq<char>)
    requires
        a.len() < b.len(),
        a == b.take(a.len() as int),
    ensures
        str_lt(a, b),
    decreases a.len(),
{
    if a.len() > 0 {
        assert(a[0] == b[0]);
        assert(a.drop_first() =~= b.drop_first().take(a.len() - 1));
        lemma_str_lt_prefix_short(a.drop_first(), b.drop_first());
    }
}

impl WorkspaceID {
    /// Compare two identifiers by `(group, slot)`, the order renumbering
    /// and listing use.  The numeric id is not consulted.
    pub fn cmp_group_and_workspace(&self, other: &Self) -> (r: Ordering)
        ensures
            r == Ordering::Less <==> id_lt(self@, other@),
            r == Ordering::Equal <==> id_key_eq(self@, other@),
            r == Ordering::Greater <==> id_lt(other@, self@),
    {
        proof {
            lemma_id_trichotomy(self@, other@);
        }
        let group_order = match (self.group(), other.group()) {
            (None, None) => Ordering::Equal,
            (None, Some(_)) => Ordering::Less,
            (Some(_), None) => Ordering::Greater,
            (Some(a), Some(b)) => {
                let r = str_cmp(a.as_str(), b.as_str());
                proof {
                    lemma_str_lt_trichotomy(a@, b@);
                }
                r
            },
        };
        match group_order {
            Ordering::Less => Ordering::Less,
            Ordering::Greater => Ordering::Greater,
            Ordering::Equal => {
                match (self.group_workspace(), other.group_workspace()) {
                    (None, None) => Ordering::Equal,
                    (None, Some(_)) => Ordering::Less,
                    (Some(_), None) => Ordering::Greater,
                    (Some(a), Some(b)) => {
                        if a < b {
                            Ordering::Less
                        } else if a > b {
                            Ordering::Greater
                        } else {
                            Ordering::Equal
                        }
                    },
                }
            },
        }
    }

    /// Do two identifiers share their `(group, slot)` sort key?
    pub fn eq_group_and_workspace(&self, other: &Self) -> (r: bool)
        ensures
            r == id_key_eq(self@, other@),
    {
        matches!(self.cmp_group_and_workspace(other), Ordering::Equal)
    }
}

} // verus!
