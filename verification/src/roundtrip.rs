//! The codec's round-trip law.
//!
//! Any string decodes to some identifier, and re-encoding a decoded
//! identifier yields a name that decodes back to the very same identifier:
//! the same present components with the same values.  The first-seen
//! string itself need not be recovered — the name `01` decodes to the
//! numeric id 1, which encodes back to `1` — but from the first decode
//! on, encode and decode are exact inverses.

use vstd::prelude::*;
use crate::dec::{i64_dec, lemma_i64_dec_round_trip, lemma_u_dec_facts, parses_as_i64, signed_val};
use crate::fields::{
    join_colon, lemma_join_first, lemma_join_segs, lemma_segs_append_field, lemma_segs_basic,
    lemma_segs_has_colon, lemma_segs_no_colon, lemma_segs_prepend_field, no_colon, segs,
};
use crate::workspace_id::{decode_spec, encode_spec, IdView};

verus! {

/// The shapes that decoding can produce.  Each variant constrains its
/// components just enough that re-encoding cannot be mistaken for a
/// different shape: numbers fit in `i64`, and where a group name is kept
/// verbatim its outer fields do not read as integers.
pub open spec fn decoded_form(v: IdView) -> bool {
    match v {
        IdView::JustI3ID(n) => i64::MIN <= n <= i64::MAX,
        IdView::I3IDWithGroup(n, g) => i64::MIN <= n <= i64::MAX && (no_colon(g)
            || !parses_as_i64(segs(g).last())),
        IdView::JustGroup(g) => !parses_as_i64(segs(g)[0]) && !parses_as_i64(segs(g).last()),
        IdView::GroupWithWorkspace(g, w) => !parses_as_i64(segs(g)[0]) && i64::MIN <= w
            <= i64::MAX,
        IdView::Full(n, g, w) => i64::MIN <= n <= i64::MAX && i64::MIN <= w <= i64::MAX,
    }
}

/// A decimal rendering has no colon in it.
proof fn lemma_i64_dec_no_colon(n: int)
    requires
        i64::MIN <= n <= i64::MAX,
    ensures
        no_colon(i64_dec(n)),
        i64_dec(n).len() >= 1,
{
    if n < 0 {
        lemma_u_dec_facts(-n);
        assert(forall|i: int| 1 <= i < i64_dec(n).len() ==> #[trigger] i64_dec(n)[i] != ':');
        assert(i64_dec(n)[0] == '-');
    } else {
        lemma_u_dec_facts(n);
    }
}

/// Everything decoding produces is in decoded form.
pub proof fn lemma_decode_form(s: Seq<char>)
    ensures
        decoded_form(decode_spec(s)),
{
    lemma_segs_basic(s);
    let f = segs(s);
    if f.len() == 1 {
        if !parses_as_i64(f[0]) {
            lemma_join_segs(s);
            assert(join_colon(f) == f[0]);
            lemma_segs_no_colon(s);
        }
    } else if f.len() == 2 {
        if parses_as_i64(f[0]) {
            lemma_segs_no_colon(f[1]);
        } else if parses_as_i64(f[1]) {
            lemma_segs_no_colon(f[0]);
        } else {
            lemma_join_segs(s);
            lemma_join_first(f);
            assert(f.drop_first() =~= seq![f[1]]);
            assert(s =~= f[0] + seq![':'] + f[1]);
            lemma_segs_prepend_field(f[0], f[1]);
            assert(segs(s)[0] == f[0]);
            lemma_segs_append_field(f[0], f[1]);
            assert(segs(s).last() == f[1]);
        }
    } else {
        let a = f[0];
        let b = join_colon(f.subrange(1, f.len() - 1));
        let c = f.last();
        if parses_as_i64(a) && !parses_as_i64(c) {
            // the group becomes b ++ ":" ++ c; its last field is c
            lemma_segs_append_field(b, c);
        } else if !parses_as_i64(a) && parses_as_i64(c) {
            // the group becomes a ++ ":" ++ b; its first field is a
            lemma_segs_prepend_field(a, b);
            lemma_segs_basic(b);
        } else if !parses_as_i64(a) && !parses_as_i64(c) {
            // the group is the whole name; its outer fields are a and c
            assert(decode_spec(s) == IdView::JustGroup(s));
        }
    }
}

/// Re-encoding an identifier in decoded form and decoding again yields
/// the identifier itself.
pub proof fn lemma_encode_decode(v: IdView)
    requires
        decoded_form(v),
    ensures
        decode_spec(encode_spec(v)) == v,
{
    match v {
        IdView::JustI3ID(n) => {
            lemma_i64_dec_no_colon(n);
            lemma_i64_dec_round_trip(n);
            lemma_segs_no_colon(i64_dec(n));
        },
        IdView::I3IDWithGroup(n, g) => {
            lemma_i64_dec_no_colon(n);
            lemma_i64_dec_round_trip(n);
            let e = i64_dec(n) + seq![':'] + g;
            lemma_segs_prepend_field(i64_dec(n), g);
            lemma_segs_basic(g);
            let f = segs(e);
            assert(f =~~= seq![i64_dec(n)] + segs(g));
            if no_colon(g) {
                lemma_segs_no_colon(g);
                assert(f.len() == 2);
                assert(f[0] == i64_dec(n) && f[1] == g);
                assert(decode_spec(e) == IdView::I3IDWithGroup(signed_val(i64_dec(n)), g));
            } else {
                lemma_segs_has_colon(g);
                assert(f.len() >= 3);
                assert(f[0] == i64_dec(n));
                assert(f.last() == segs(g).last());
                // the middle of e's fields is the group without its last field
                assert(f.subrange(1, f.len() - 1) =~= segs(g).drop_last());
                lemma_join_segs(g);
                lemma_join_first(f);
                // join(segs(g)) splits as join(front) ++ ":" ++ last
                assert(segs(g) =~= segs(g).drop_last().push(segs(g).last()));
                lemma_join_push(segs(g).drop_last(), segs(g).last());
                assert(join_colon(f.subrange(1, f.len() - 1)) + seq![':'] + segs(g).last() =~= g);
            }
        },
        IdView::JustGroup(g) => {
            let f = segs(g);
            lemma_segs_basic(g);
            if f.len() == 1 {
                assert(decode_spec(g) == IdView::JustGroup(g));
            } else if f.len() == 2 {
                assert(decode_spec(g) == IdView::JustGroup(g));
            } else {
                assert(decode_spec(g) == IdView::JustGroup(g));
            }
        },
        IdView::GroupWithWorkspace(g, w) => {
            lemma_i64_dec_no_colon(w);
            lemma_i64_dec_round_trip(w);
            let e = g + seq![':'] + i64_dec(w);
            lemma_segs_append_field(g, i64_dec(w));
            lemma_segs_basic(g);
            let f = segs(e);
            assert(f =~~= segs(g).push(i64_dec(w)));
            if no_colon(g) {
                lemma_segs_no_colon(g);
                assert(f.len() == 2);
                assert(f[0] == g && f[1] == i64_dec(w));
                assert(decode_spec(e) == IdView::GroupWithWorkspace(g, w));
            } else {
                lemma_segs_has_colon(g);
                assert(f.len() >= 3);
                assert(f[0] == segs(g)[0]);
                assert(f.last() == i64_dec(w));
                assert(f.subrange(1, f.len() - 1) =~= segs(g).drop_first());
                lemma_join_segs(g);
                lemma_join_first(segs(g));
                assert(segs(g)[0] + seq![':'] + join_colon(f.subrange(1, f.len() - 1)) =~= g);
            }
        },
        IdView::Full(n, g, w) => {
            lemma_i64_dec_no_colon(n);
            lemma_i64_dec_no_colon(w);
            lemma_i64_dec_round_trip(n);
            lemma_i64_dec_round_trip(w);
            let tail = g + seq![':'] + i64_dec(w);
            let e = i64_dec(n) + seq![':'] + tail;
            assert(encode_spec(v) =~= e);
            lemma_segs_prepend_field(i64_dec(n), tail);
            lemma_segs_append_field(g, i64_dec(w));
            lemma_segs_basic(g);
            let f = segs(e);
            assert(f =~~= seq![i64_dec(n)] + segs(g).push(i64_dec(w)));
            assert(f.len() >= 3);
            assert(f[0] == i64_dec(n));
            assert(f.last() == i64_dec(w));
            assert(f.subrange(1, f.len() - 1) =~= segs(g));
            lemma_join_segs(g);
        },
    }
}

/// Joining one more field appends a colon and the field.
proof fn lemma_join_push(p: Seq<Seq<char>>, q: Seq<char>)
    requires
        p.len() >= 1,
    ensures
        join_colon(p.push(q)) == join_colon(p) + seq![':'] + q,
{
    assert(p.push(q).drop_last() =~= p);
    assert(p.push(q).last() == q);
}

/// Round-trip law: whatever decoding produced, encoding it and decoding
/// again gives the same present components with the same values.
pub proof fn lemma_round_trip(s: Seq<char>)
    ensures
        decode_spec(encode_spec(decode_spec(s))) == decode_spec(s),
{
    lemma_decode_form(s);
    lemma_encode_decode(decode_spec(s));
}

} // verus!
