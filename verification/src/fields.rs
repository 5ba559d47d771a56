//! Colon-delimited fields of a workspace name.
//!
//! A name splits on every `:` into one or more fields; joining the fields
//! back with `:` restores the name.  The splitter here matches
//! `str::split(':')`: an empty name gives one empty field, and a trailing
//! or doubled colon gives empty fields.

use vstd::prelude::*;

verus! {

/// `s` contains no colon.
pub open spec fn no_colon(s: Seq<char>) -> bool {
    forall|i: int| 0 <= i < s.len() ==> #[trigger] s[i] != ':'
}

/// The fields of `s`, split on every colon.  There is always at least one
/// field; a colon at the end opens a new, empty one.
pub open spec fn segs(s: Seq<char>) -> Seq<Seq<char>>
    decreases s.len(),
{
    if s.len() == 0 {
        seq![Seq::<char>::empty()]
    } else if s.last() == ':' {
        segs(s.drop_last()).push(Seq::<char>::empty())
    } else {
        let r = segs(s.drop_last());
        r.update(r.len() - 1, r.last().push(s.last()))
    }
}

/// The fields joined back with colons.
pub open spec fn join_colon(parts: Seq<Seq<char>>) -> Seq<char>
    decreases parts.len(),
{
    if parts.len() == 0 {
        Seq::empty()
    } else if parts.len() == 1 {
        parts[0]
    } else {
        join_colon(parts.drop_last()) + seq![':'] + parts.last()
    }
}

/// Splitting always yields at least one field, and none of them contains
/// a colon.
pub proof fn lemma_segs_basic(s: Seq<char>)
    ensures
        segs(s).len() >= 1,
        forall|j: int| 0 <= j < segs(s).len() ==> no_colon(#[trigger] segs(s)[j]),
    decreases s.len(),
{
    if s.len() > 0 {
        lemma_segs_basic(s.drop_last());
    }
}

/// A string without colons is its own single field.
pub proof fn lemma_segs_no_colon(s: Seq<char>)
    requires
        no_colon(s),
    ensures
        segs(s) =~~= seq![s],
    decreases s.len(),
{
    if s.len() == 0 {
        assert(segs(s) =~~= seq![s]);
    } else {
        assert(s[s.len() - 1] != ':');
        assert(no_colon(s.drop_last())) by {
            assert(forall|i: int| 0 <= i < s.len() - 1 ==> #[trigger] s.drop_last()[i] == s[i]);
        }
        lemma_segs_no_colon(s.drop_last());
        assert(s.drop_last().push(s.last()) =~= s);
    }
}

/// A string with a colon splits into at least two fields.
pub proof fn lemma_segs_has_colon(s: Seq<char>)
    requires
        !no_colon(s),
    ensures
        segs(s).len() >= 2,
    decreases s.len(),
{
    lemma_segs_basic(s);
    if s.last() == ':' {
        lemma_segs_basic(s.drop_last());
    } else {
        let i = choose|i: int| 0 <= i < s.len() && s[i] == ':';
        assert(s.drop_last()[i] == ':');
        lemma_segs_has_colon(s.drop_last());
    }
}

/// Appending a colon opens a new, empty field.
pub proof fn lemma_segs_push_colon(s: Seq<char>)
    ensures
        segs(s.push(':')) =~~= segs(s).push(Seq::<char>::empty()),
{
    assert(s.push(':').drop_last() =~= s);
}

/// Appending any other character extends the last field.
pub proof fn lemma_segs_push_other(s: Seq<char>, c: char)
    requires
        c != ':',
    ensures
        segs(s.push(c)) =~~= segs(s).update(segs(s).len() - 1, segs(s).last().push(c)),
{
    lemma_segs_basic(s);
    assert(s.push(c).drop_last() =~= s);
}

/// Joining the fields of a string restores the string.
pub proof fn lemma_join_segs(s: Seq<char>)
    ensures
        join_colon(segs(s)) =~= s,
    decreases s.len(),
{
    lemma_segs_basic(s);
    if s.len() == 0 {
    } else if s.last() == ':' {
        lemma_join_segs(s.drop_last());
        let p = segs(s.drop_last());
        assert(segs(s) =~~= p.push(Seq::<char>::empty()));
        assert(p.push(Seq::<char>::empty()).drop_last() =~= p);
        assert(join_colon(segs(s)) =~= join_colon(p) + seq![':'] + Seq::<char>::empty());
        assert(s.drop_last().push(':') =~= s);
    } else {
        lemma_join_segs(s.drop_last());
        lemma_segs_basic(s.drop_last());
        let p = segs(s.drop_last());
        let q = p.update(p.len() - 1, p.last().push(s.last()));
        assert(segs(s) =~~= q);
        if p.len() == 1 {
            assert(join_colon(q) == q[0]);
            assert(q[0] =~= p[0].push(s.last()));
            assert(join_colon(p) == p[0]);
        } else {
            assert(q.drop_last() =~= p.drop_last());
            assert(q.last() =~= p.last().push(s.last()));
            assert(join_colon(q) =~= join_colon(p.drop_last()) + seq![':'] + p.last().push(s.last()));
            assert(join_colon(p) =~= join_colon(p.drop_last()) + seq![':'] + p.last());
        }
        assert(s.drop_last().push(s.last()) =~= s);
    }
}

/// Splitting `a ++ ":" ++ b` for colon-free `b` appends `b` as one more
/// field after the fields of `a`.
pub proof fn lemma_segs_append_field(a: Seq<char>, b: Seq<char>)
    requires
        no_colon(b),
    ensures
        segs(a + seq![':'] + b) =~~= segs(a).push(b),
    decreases b.len(),
{
    lemma_segs_basic(a);
    if b.len() == 0 {
        assert(a + seq![':'] + b =~= a.push(':'));
        lemma_segs_push_colon(a);
    } else {
        let b0 = b.drop_last();
        assert(no_colon(b0)) by {
            assert(forall|i: int| 0 <= i < b0.len() ==> #[trigger] b0[i] == b[i]);
        }
        lemma_segs_append_field(a, b0);
        assert(a + seq![':'] + b =~= (a + seq![':'] + b0).push(b.last()));
        assert(b.last() != ':');
        lemma_segs_push_other(a + seq![':'] + b0, b.last());
        assert(segs(a).push(b0).update(segs(a).len() as int, b0.push(b.last())) =~~= segs(a).push(
            b,
        ));
        assert(b0.push(b.last()) =~= b);
    }
}

/// Splitting `a ++ ":" ++ b` for colon-free `a` puts `a` as the first
/// field before the fields of `b`.
pub proof fn lemma_segs_prepend_field(a: Seq<char>, b: Seq<char>)
    requires
        no_colon(a),
    ensures
        segs(a + seq![':'] + b) =~~= seq![a] + segs(b),
    decreases b.len(),
{
    lemma_segs_basic(b);
    if b.len() == 0 {
        assert(a + seq![':'] + b =~= a.push(':'));
        lemma_segs_push_colon(a);
        lemma_segs_no_colon(a);
        assert(segs(a).push(Seq::<char>::empty()) =~~= seq![a] + segs(b));
    } else {
        let b0 = b.drop_last();
        lemma_segs_prepend_field(a, b0);
        lemma_segs_basic(b0);
        assert(a + seq![':'] + b =~= (a + seq![':'] + b0).push(b.last()));
        if b.last() == ':' {
            lemma_segs_push_colon(a + seq![':'] + b0);
            assert(segs(b) =~~= segs(b0).push(Seq::<char>::empty()));
            assert((seq![a] + segs(b0)).push(Seq::<char>::empty()) =~~= seq![a] + segs(b0).push(
                Seq::<char>::empty(),
            ));
        } else {
            lemma_segs_push_other(a + seq![':'] + b0, b.last());
            let p = seq![a] + segs(b0);
            assert(p.last() == segs(b0).last());
            assert(p.update(p.len() - 1, p.last().push(b.last())) =~~= seq![a] + segs(b0).update(
                segs(b0).len() - 1,
                segs(b0).last().push(b.last()),
            ));
        }
    }
}

/// The head field and the joined tail of two or more fields rebuild the
/// join: `join(p) == p[0] ++ ":" ++ join(p[1..])`.
pub proof fn lemma_join_first(p: Seq<Seq<char>>)
    requires
        p.len() >= 2,
    ensures
        join_colon(p) =~= p[0] + seq![':'] + join_colon(p.drop_first()),
    decreases p.len(),
{
    if p.len() == 2 {
        assert(p.drop_last() =~= seq![p[0]]);
        assert(p.drop_first() =~= seq![p[1]]);
    } else {
        lemma_join_first(p.drop_last());
        assert(p.drop_last().drop_first() =~= p.drop_first().drop_last());
        assert(p.drop_last()[0] == p[0]);
        assert(join_colon(p) =~= join_colon(p.drop_last()) + seq![':'] + p.last());
        assert(join_colon(p.drop_first()) =~= join_colon(p.drop_first().drop_last()) + seq![':']
            + p.drop_first().last());
        assert(p.drop_first().last() == p.last());
    }
}

/// Split a string on every colon, as `str::split(':')` does.
pub fn split_colons(s: &str) -> (r: Vec<String>)
    ensures
        r.deep_view() == segs(s@),
{
    let n = s.unicode_len();
    let mut fields: Vec<String> = Vec::new();
    let mut cur = String::new();
    let mut i: usize = 0;
    proof {
        assert(s@.take(0) =~= Seq::<char>::empty());
        assert(fields.deep_view().push(cur@) =~~= segs(s@.take(0)));
    }
    while i < n
        invariant
            0 <= i <= n,
            n == s@.len(),
            fields.deep_view().push(cur@) =~~= segs(s@.take(i as int)),
        decreases n - i,
    {
        let c = s.get_char(i);
        proof {
            assert(s@.take(i + 1).drop_last() =~= s@.take(i as int));
            assert(s@.take(i + 1) =~= s@.take(i as int).push(s@[i as int]));
        }
        if c == ':' {
            proof {
                lemma_segs_push_colon(s@.take(i as int));
            }
            fields.push(cur);
            cur = String::new();
            proof {
                assert(fields.deep_view().push(cur@) =~~= segs(s@.take(i + 1)));
            }
        } else {
            proof {
                lemma_segs_push_other(s@.take(i as int), c);
                lemma_segs_basic(s@.take(i as int));
            }
            push_char_field(&mut cur, c);
            proof {
                assert(fields.deep_view().push(cur@) =~~= segs(s@.take(i + 1)));
            }
        }
        i = i + 1;
    }
    proof {
        assert(s@.take(n as int) =~= s@);
    }
    fields.push(cur);
    proof {
        lemma_segs_basic(s@);
        assert(fields.deep_view() =~~= segs(s@));
    }
    fields
}

/// Append one character to a field while it is being collected.
fn push_char_field(s: &mut String, c: char)
    ensures
        final(s)@ == old(s)@.push(c),
{
    crate::dec::push_char(s, c);
}

/// Join fields with colons, as the codec writes names.
pub fn join_fields(fields: &Vec<String>, from: usize, to: usize) -> (r: String)
    requires
        from <= to <= fields@.len(),
        to > from,
    ensures
        r@ == join_colon(fields.deep_view().subrange(from as int, to as int)),
{
    let mut r: String = fields[from].clone();
    let mut i: usize = from + 1;
    proof {
        assert(fields.deep_view().subrange(from as int, from + 1) =~~= seq![fields@[from as int]@]);
    }
    while i < to
        invariant
            from < i <= to,
            to <= fields@.len(),
            r@ == join_colon(fields.deep_view().subrange(from as int, i as int)),
        decreases to - i,
    {
        let ghost before = fields.deep_view().subrange(from as int, i as int);
        let ghost after = fields.deep_view().subrange(from as int, i + 1);
        proof {
            assert(after.drop_last() =~~= before);
            assert(after.last() == fields@[i as int]@);
        }
        let mut r2 = r.concat(":");
        proof {
            reveal_strlit(":");
            assert(r2@ =~= join_colon(before) + seq![':']);
        }
        let r3 = r2.concat(fields[i].as_str());
        proof {
            assert(r3@ =~= join_colon(before) + seq![':'] + after.last());
            if after.len() >= 2 {
                assert(join_colon(after) =~= join_colon(after.drop_last()) + seq![':']
                    + after.last());
            }
        }
        r = r3;
        i = i + 1;
    }
    r
}

} // verus!
