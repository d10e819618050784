//! Ordering of items by a two-part rank: the first part descending, the second ascending.
use vstd::prelude::*;
use vstd::multiset::Multiset;

verus! {

broadcast use vstd::seq_lib::group_to_multiset_ensures;

/// Items that carry a rank.
pub trait Ranked {
    spec fn rank_spec(&self) -> (u64, u64);

    fn rank(&self) -> (r: (u64, u64))
        ensures
            r == self.rank_spec();
}

/// `a` goes strictly before `b`: a higher first part, or the same and a lower second part.
pub open spec fn goes_before(a: (u64, u64), b: (u64, u64)) -> bool {
    a.0 > b.0 || (a.0 == b.0 && a.1 < b.1)
}

/// No item is preceded by one that should come after it.
pub open spec fn in_rank_order<T: Ranked>(s: Seq<T>) -> bool {
    forall|i: int, j: int| 0 <= i < j < s.len() ==> !goes_before(#[trigger] s[j].rank_spec(), #[trigger] s[i].rank_spec())
}

/// The index of the first item of best rank.
pub open spec fn best_pos<T: Ranked>(s: Seq<T>) -> int
    decreases s.len(),
{
    if s.len() <= 1 {
        0
    } else {
        let m = best_pos(s.drop_last());
        if goes_before(s.last().rank_spec(), s[m].rank_spec()) {
            s.len() - 1
        } else {
            m
        }
    }
}

pub proof fn lemma_best_pos<T: Ranked>(s: Seq<T>)
    requires
        s.len() > 0,
    ensures
        0 <= best_pos(s) < s.len(),
    decreases s.len(),
{
    if s.len() > 1 {
        lemma_best_pos(s.drop_last());
    }
}

/// The items in rank order: repeatedly, the first item of best rank.
pub open spec fn rank_sorted<T: Ranked>(s: Seq<T>) -> Seq<T>
    decreases s.len(),
{
    if s.len() == 0 {
        seq![]
    } else {
        proof {
            lemma_best_pos(s);
        }
        seq![s[best_pos(s)]] + rank_sorted(s.remove(best_pos(s)))
    }
}

/// The index of the first item of best rank.
fn best_index<T: Ranked>(v: &Vec<T>) -> (m: usize)
    requires
        v.len() > 0,
    ensures
        m < v.len(),
        m == best_pos(v@),
        forall|j: int| 0 <= j < v.len() ==> !goes_before(#[trigger] v@[j].rank_spec(), v@[m as int].rank_spec()),
{
    let mut m: usize = 0;
    let mut best = v[0].rank();
    let mut i: usize = 1;
    while i < v.len()
        invariant
            0 < v.len(),
            1 <= i <= v.len(),
            m < i,
            best == v@[m as int].rank_spec(),
            m == best_pos(v@.subrange(0, i as int)),
            forall|j: int| 0 <= j < i ==> !goes_before(#[trigger] v@[j].rank_spec(), best),
        decreases v.len() - i,
    {
        assert(v@.subrange(0, i + 1).drop_last() =~= v@.subrange(0, i as int));
        let r = v[i].rank();
        if r.0 > best.0 || (r.0 == best.0 && r.1 < best.1) {
            m = i;
            best = r;
        }
        i += 1;
    }
    assert(v@.subrange(0, v@.len() as int) =~= v@);
    m
}

/// The items of `v` rearranged into rank order.
pub fn sort_ranked<T: Ranked>(v: Vec<T>) -> (r: Vec<T>)
    ensures
        r@ == rank_sorted(v@),
        r@.to_multiset() == v@.to_multiset(),
        r@.len() == v@.len(),
        in_rank_order(r@),
{
    let mut src = v;
    let mut out: Vec<T> = Vec::new();
    while src.len() > 0
        invariant
            out@.to_multiset().add(src@.to_multiset()) == v@.to_multiset(),
            out@.len() + src@.len() == v@.len(),
            in_rank_order(out@),
            forall|a: int, b: int| 0 <= a < out@.len() && 0 <= b < src@.len() ==> !goes_before(#[trigger] src@[b].rank_spec(), #[trigger] out@[a].rank_spec()),
            out@ + rank_sorted(src@) == rank_sorted(v@),
        decreases src.len(),
    {
        let m = best_index(&src);
        let ghost s0 = src@;
        let ghost o0 = out@;
        let x = src.remove(m);
        proof {
            assert(rank_sorted(s0) == seq![x] + rank_sorted(src@));
            assert(o0 + rank_sorted(s0) =~= o0.push(x) + rank_sorted(src@));
            assert(s0.to_multiset() == src@.to_multiset().insert(x));
            assert(forall|b: int| 0 <= b < src@.len() ==> #[trigger] src@[b] == s0[if b < m { b } else { b + 1 }]);
        }
        out.push(x);
        proof {
            assert(out@.to_multiset() == o0.to_multiset().insert(x));
            assert(out@.to_multiset().add(src@.to_multiset()) =~= o0.to_multiset().add(s0.to_multiset()));
            assert forall|i: int, j: int| 0 <= i < j < out@.len() implies !goes_before(#[trigger] out@[j].rank_spec(), #[trigger] out@[i].rank_spec()) by {
                if j == out@.len() - 1 {
                    assert(out@[j] == s0[m as int]);
                    assert(out@[i] == o0[i]);
                } else {
                    assert(out@[j] == o0[j]);
                    assert(out@[i] == o0[i]);
                }
            }
            assert forall|a: int, b: int| 0 <= a < out@.len() && 0 <= b < src@.len() implies !goes_before(#[trigger] src@[b].rank_spec(), #[trigger] out@[a].rank_spec()) by {
                let b2 = if b < m { b } else { b + 1 };
                assert(src@[b] == s0[b2]);
                if a == out@.len() - 1 {
                    assert(out@[a] == s0[m as int]);
                } else {
                    assert(out@[a] == o0[a]);
                }
            }
        }
    }
    proof {
        assert(src@.to_multiset() =~= Multiset::empty());
        assert(out@.to_multiset().add(Multiset::empty()) =~= out@.to_multiset());
        assert(out@ + rank_sorted(src@) =~= out@);
    }
    out
}

/// Rearranges `v` in place into rank order.
pub fn sort_ranked_in_place<T: Ranked>(v: &mut Vec<T>)
    ensures
        final(v)@ == rank_sorted(old(v)@),
        final(v)@.to_multiset() == old(v)@.to_multiset(),
        final(v)@.len() == old(v)@.len(),
        in_rank_order(final(v)@),
{
    let mut tmp: Vec<T> = Vec::new();
    std::mem::swap(&mut tmp, v);
    let sorted = sort_ranked(tmp);
    *v = sorted;
}

/// Mapping two sequences with the same elements gives sequences with the same elements.
pub proof fn lemma_map_same_elements<A, B>(s1: Seq<A>, s2: Seq<A>, f: spec_fn(A) -> B)
    requires
        s1.to_multiset() == s2.to_multiset(),
    ensures
        s1.map_values(f).to_multiset() == s2.map_values(f).to_multiset(),
    decreases s1.len(),
{
    if s1.len() == 0 {
        assert(s2.to_multiset().len() == 0);
        assert(s2.len() == 0);
        assert(s1.map_values(f) =~= s2.map_values(f));
    } else {
        let x = s1.last();
        let s1p = s1.drop_last();
        assert(s1 =~= s1p.push(x));
        assert(s1.to_multiset() == s1p.to_multiset().insert(x));
        assert(s2.to_multiset().count(x) > 0);
        let k = choose|k: int| 0 <= k < s2.len() && s2[k] == x;
        let s2p = s2.remove(k);
        assert(s2.to_multiset() == s2p.to_multiset().insert(x));
        assert(s1p.to_multiset() =~= s2p.to_multiset());
        lemma_map_same_elements(s1p, s2p, f);
        assert(s1.map_values(f) =~= s1p.map_values(f).push(f(x)));
        assert(s2.map_values(f).remove(k) =~= s2p.map_values(f));
        assert(s2.map_values(f)[k] == f(x));
        assert(s2.map_values(f).to_multiset() == s2.map_values(f).remove(k).to_multiset().insert(f(x)));
    }
}

} // verus!
