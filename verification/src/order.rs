//! Byte-wise lexicographic ordering of parameter pairs, proved to be a total
//! order, and a verified sort over it. The signature base string's parameter
//! segment is built from this order.
use vstd::prelude::*;
use vstd::multiset::Multiset;
use vstd::relations::{sorted_by, total_ordering};

verus! {

/// One `key=value` parameter, keys and values as byte strings.
pub type ParamPair = (Vec<u8>, Vec<u8>);

/// The mathematical view of a parameter list: each pair's byte sequences.
pub open spec fn pairs_view(ps: Seq<ParamPair>) -> Seq<(Seq<u8>, Seq<u8>)> {
    ps.map_values(|p: ParamPair| (p.0@, p.1@))
}

/// Byte-wise lexicographic order on byte strings: a proper prefix comes
/// first, otherwise the first differing byte decides.
pub open spec fn lex_le(a: Seq<u8>, b: Seq<u8>) -> bool
    decreases a.len(),
{
    if a.len() == 0 {
        true
    } else if b.len() == 0 {
        false
    } else if a[0] < b[0] {
        true
    } else if a[0] > b[0] {
        false
    } else {
        lex_le(a.drop_first(), b.drop_first())
    }
}

/// Parameter pairs are ordered by key, ties broken by value.
pub open spec fn pair_le(x: (Seq<u8>, Seq<u8>), y: (Seq<u8>, Seq<u8>)) -> bool {
    if x.0 == y.0 {
        lex_le(x.1, y.1)
    } else {
        lex_le(x.0, y.0)
    }
}

/// The pair order as a relation value.
pub open spec fn pair_leq() -> spec_fn((Seq<u8>, Seq<u8>), (Seq<u8>, Seq<u8>)) -> bool {
    |x: (Seq<u8>, Seq<u8>), y: (Seq<u8>, Seq<u8>)| pair_le(x, y)
}

proof fn lemma_lex_le_refl(a: Seq<u8>)
    ensures
        lex_le(a, a),
    decreases a.len(),
{
    if a.len() > 0 {
        lemma_lex_le_refl(a.drop_first());
    }
}

proof fn lemma_lex_le_antisym(a: Seq<u8>, b: Seq<u8>)
    requires
        lex_le(a, b),
        lex_le(b, a),
    ensures
        a == b,
    decreases a.len(),
{
    if a.len() == 0 {
        assert(b.len() == 0);
        assert(a =~= b);
    } else {
        lemma_lex_le_antisym(a.drop_first(), b.drop_first());
        assert(a =~= seq![a[0]] + a.drop_first());
        assert(b =~= seq![b[0]] + b.drop_first());
    }
}

proof fn lemma_lex_le_trans(a: Seq<u8>, b: Seq<u8>, c: Seq<u8>)
    requires
        lex_le(a, b),
        lex_le(b, c),
    ensures
        lex_le(a, c),
    decreases a.len(),
{
    if a.len() == 0 {
    } else {
        if a[0] == b[0] && b[0] == c[0] {
            lemma_lex_le_trans(a.drop_first(), b.drop_first(), c.drop_first());
        }
    }
}

proof fn lemma_lex_le_connected(a: Seq<u8>, b: Seq<u8>)
    ensures
        lex_le(a, b) || lex_le(b, a),
    decreases a.len(),
{
    if a.len() > 0 && b.len() > 0 && a[0] == b[0] {
        lemma_lex_le_connected(a.drop_first(), b.drop_first());
    }
}

/// The pair order is a total order, as the sortedness lemmas require.
pub proof fn lemma_pair_le_total_ordering()
    ensures
        total_ordering(pair_leq()),
{
    let r = pair_leq();
    assert forall|x: (Seq<u8>, Seq<u8>)| #[trigger] r(x, x) by {
        lemma_lex_le_refl(x.1);
    }
    assert forall|x: (Seq<u8>, Seq<u8>), y: (Seq<u8>, Seq<u8>)| #[trigger] r(x, y) && #[trigger] r(
        y,
        x,
    ) implies x == y by {
        if x.0 == y.0 {
            lemma_lex_le_antisym(x.1, y.1);
        } else {
            lemma_lex_le_antisym(x.0, y.0);
        }
    }
    assert forall|x: (Seq<u8>, Seq<u8>), y: (Seq<u8>, Seq<u8>), z: (Seq<u8>, Seq<u8>)| #[trigger] r(
        x,
        y,
    ) && #[trigger] r(y, z) implies r(x, z) by {
        if x.0 == y.0 && y.0 == z.0 {
            lemma_lex_le_trans(x.1, y.1, z.1);
        } else if x.0 == y.0 {
            // key order decides between y and z, and x has y's key
        } else if y.0 == z.0 {
            // key order decides between x and y, and z has y's key
        } else {
            lemma_lex_le_trans(x.0, y.0, z.0);
            if x.0 == z.0 {
                lemma_lex_le_antisym(x.0, y.0);
            }
        }
    }
    assert forall|x: (Seq<u8>, Seq<u8>), y: (Seq<u8>, Seq<u8>)| #[trigger] r(x, y) || #[trigger] r(
        y,
        x,
    ) by {
        if x.0 == y.0 {
            lemma_lex_le_connected(x.1, y.1);
        } else {
            lemma_lex_le_connected(x.0, y.0);
        }
    }
}

/// Compare two byte strings in the lexicographic order.
pub fn lex_le_bytes(a: &[u8], b: &[u8]) -> (r: bool)
    ensures
        r == lex_le(a@, b@),
{
    let mut i: usize = 0;
    proof {
        assert(a@.skip(0) =~= a@);
        assert(b@.skip(0) =~= b@);
    }
    loop
        invariant
            i <= a@.len(),
            i <= b@.len(),
            lex_le(a@, b@) == lex_le(a@.skip(i as int), b@.skip(i as int)),
            lex_le(b@, a@) == lex_le(b@.skip(i as int), a@.skip(i as int)),
        decreases a@.len() - i,
    {
        if i == a.len() {
            return true;
        }
        if i == b.len() {
            return false;
        }
        let x = *vstd::slice::slice_index_get(a, i);
        let y = *vstd::slice::slice_index_get(b, i);
        if x < y {
            return true;
        }
        if x > y {
            return false;
        }
        proof {
            assert(a@.skip(i as int).drop_first() =~= a@.skip(i + 1));
            assert(b@.skip(i as int).drop_first() =~= b@.skip(i + 1));
        }
        i += 1;
    }
}

/// Compare two byte vectors for equality.
pub fn bytes_eq(a: &Vec<u8>, b: &Vec<u8>) -> (r: bool)
    ensures
        r == (a@ == b@),
{
    let mut i: usize = 0;
    if a.len() != b.len() {
        proof {
            assert(a@ != b@);
        }
        return false;
    }
    while i < a.len()
        invariant
            i <= a@.len(),
            a@.len() == b@.len(),
            forall|k: int| 0 <= k < i ==> a@[k] == b@[k],
        decreases a@.len() - i,
    {
        if a[i] != b[i] {
            return false;
        }
        i += 1;
    }
    proof {
        assert(a@ =~= b@);
    }
    true
}

/// Compare two parameter pairs in the pair order.
pub fn pair_le_exec(x: &ParamPair, y: &ParamPair) -> (r: bool)
    ensures
        r == pair_le((x.0@, x.1@), (y.0@, y.1@)),
{
    if bytes_eq(&x.0, &y.0) {
        lex_le_bytes(x.1.as_slice(), y.1.as_slice())
    } else {
        lex_le_bytes(x.0.as_slice(), y.0.as_slice())
    }
}

/// The first position whose pair is not at or below `p` in the pair order:
/// where `p` belongs in an already sorted list.
fn insert_pos(out: &Vec<ParamPair>, p: &ParamPair) -> (j: usize)
    ensures
        j <= out@.len(),
        forall|k: int| 0 <= k < j ==> pair_le(pairs_view(out@)[k], (p.0@, p.1@)),
        j < out@.len() ==> !pair_le(pairs_view(out@)[j as int], (p.0@, p.1@)),
{
    let mut j: usize = 0;
    while j < out.len()
        invariant
            j <= out@.len(),
            forall|k: int| 0 <= k < j ==> pair_le(pairs_view(out@)[k], (p.0@, p.1@)),
        decreases out@.len() - j,
    {
        let le = pair_le_exec(&out[j], p);
        proof {
            assert(pairs_view(out@)[j as int] == (out@[j as int].0@, out@[j as int].1@));
        }
        if !le {
            return j;
        }
        j += 1;
    }
    j
}

/// Sort a parameter list by key (byte-wise), ties broken by value. The
/// result is sorted and holds exactly the input's pairs.
pub fn sort_pairs(ps: Vec<ParamPair>) -> (r: Vec<ParamPair>)
    ensures
        sorted_by(pairs_view(r@), pair_leq()),
        pairs_view(r@).to_multiset() == pairs_view(ps@).to_multiset(),
{
    proof {
        broadcast use vstd::seq_lib::group_to_multiset_ensures;

    }
    let ghost orig = pairs_view(ps@);
    let mut src = ps;
    let mut out: Vec<ParamPair> = Vec::new();
    while src.len() > 0
        invariant
            sorted_by(pairs_view(out@), pair_leq()),
            pairs_view(out@).to_multiset().add(pairs_view(src@).to_multiset()) == orig.to_multiset(),
        decreases src@.len(),
    {
        broadcast use vstd::seq_lib::group_to_multiset_ensures;

        let ghost src0 = pairs_view(src@);
        let ghost out0 = pairs_view(out@);
        let p = src.remove(0);
        let ghost pv = (p.0@, p.1@);
        proof {
            assert(pairs_view(src@) =~= src0.drop_first());
            assert(src0.drop_first() =~= src0.remove(0));
            assert(src0.remove(0).to_multiset() == src0.to_multiset().remove(src0[0]));
            assert(src0[0] == pv);
        }
        let j = insert_pos(&out, &p);
        proof {
            lemma_pair_le_total_ordering();
            if j < out@.len() {
                assert(!pair_le(out0[j as int], pv));
                assert(pair_leq()(out0[j as int], pv) || pair_leq()(pv, out0[j as int]));
                assert(pair_le(pv, out0[j as int]));
            }
        }
        out.insert(j, p);
        proof {
            let outv = pairs_view(out@);
            assert(outv =~= out0.insert(j as int, pv));
            assert forall|x: int, y: int| 0 <= x < y < outv.len() implies #[trigger] pair_leq()(
                outv[x],
                outv[y],
            ) by {
                lemma_pair_le_total_ordering();
                if x < j && y == j {
                    assert(outv[x] == out0[x]);
                    assert(pair_le(out0[x], pv));
                } else if x == j {
                    assert(outv[y] == out0[y - 1]);
                    assert(pair_leq()(pv, out0[j as int]));
                    if y - 1 > j {
                        assert(pair_leq()(out0[j as int], out0[y - 1]));
                        assert(pair_leq()(pv, out0[y - 1]));
                    }
                } else if x < j && y > j {
                    assert(outv[x] == out0[x]);
                    assert(outv[y] == out0[y - 1]);
                    assert(pair_leq()(out0[x], out0[y - 1]));
                } else if x > j {
                    assert(outv[x] == out0[x - 1]);
                    assert(outv[y] == out0[y - 1]);
                    assert(pair_leq()(out0[x - 1], out0[y - 1]));
                } else {
                    assert(outv[x] == out0[x]);
                    assert(outv[y] == out0[y]);
                    assert(pair_leq()(out0[x], out0[y]));
                }
            }
            assert(outv.to_multiset() == out0.to_multiset().insert(pv));
            assert(outv.to_multiset().add(pairs_view(src@).to_multiset()) == orig.to_multiset())
                by {
                broadcast use vstd::multiset::group_multiset_axioms;

                assert(src0.to_multiset().contains(pv));
                assert(outv.to_multiset().add(pairs_view(src@).to_multiset())
                    =~= out0.to_multiset().insert(pv).add(src0.to_multiset().remove(pv)));
                assert(out0.to_multiset().insert(pv).add(src0.to_multiset().remove(pv))
                    =~= out0.to_multiset().add(src0.to_multiset()));
            }
        }
    }
    proof {
        assert(pairs_view(src@) =~= Seq::empty());
        assert(pairs_view(src@).to_multiset() =~= Multiset::empty());
        assert(pairs_view(out@).to_multiset() =~= pairs_view(out@).to_multiset().add(
            Multiset::empty(),
        ));
    }
    out
}

} // verus!
