//! Aggregates of integer sequences: sum, minimum and maximum, with the
//! concatenation and range lemmas the sliding-window proofs rest on.

use vstd::prelude::*;

verus! {

pub open spec fn seq_sum(s: Seq<int>) -> int
    decreases s.len(),
{
    if s.len() == 0 {
        0
    } else {
        s[0] + seq_sum(s.drop_first())
    }
}

pub open spec fn seq_min(s: Seq<int>) -> int
    recommends
        s.len() > 0,
    decreases s.len(),
{
    if s.len() <= 1 {
        s[0]
    } else {
        let m = seq_min(s.drop_first());
        if s[0] <= m {
            s[0]
        } else {
            m
        }
    }
}

pub open spec fn seq_max(s: Seq<int>) -> int
    recommends
        s.len() > 0,
    decreases s.len(),
{
    if s.len() <= 1 {
        s[0]
    } else {
        let m = seq_max(s.drop_first());
        if s[0] >= m {
            s[0]
        } else {
            m
        }
    }
}

pub open spec fn all_in_range(s: Seq<int>, lo: int, hi: int) -> bool {
    forall|i: int| 0 <= i < s.len() ==> lo <= #[trigger] s[i] <= hi
}

pub proof fn lemma_seq_sum_singleton(x: int)
    ensures
        seq_sum(seq![x]) == x,
{
    let s = seq![x];
    assert(s.drop_first() =~= Seq::<int>::empty());
    assert(seq_sum(Seq::<int>::empty()) == 0);
    assert(seq_sum(s) == s[0] + seq_sum(s.drop_first()));
}

pub proof fn lemma_seq_min_singleton(x: int)
    ensures
        seq_min(seq![x]) == x,
{
}

pub proof fn lemma_seq_max_singleton(x: int)
    ensures
        seq_max(seq![x]) == x,
{
}

pub proof fn lemma_all_in_range_concat(a: Seq<int>, b: Seq<int>, lo: int, hi: int)
    requires
        all_in_range(a, lo, hi),
        all_in_range(b, lo, hi),
    ensures
        all_in_range(a + b, lo, hi),
{
    assert forall|i: int| 0 <= i < (a + b).len() implies lo <= #[trigger] (a + b)[i] <= hi by {
        if i < a.len() {
            assert((a + b)[i] == a[i]);
        } else {
            assert((a + b)[i] == b[i - a.len()]);
        }
    }
}

pub proof fn lemma_seq_sum_concat(a: Seq<int>, b: Seq<int>)
    ensures
        seq_sum(a + b) == seq_sum(a) + seq_sum(b),
    decreases a.len(),
{
    if a.len() == 0 {
        assert(a + b =~= b);
    } else {
        assert((a + b).drop_first() =~= a.drop_first() + b);
        assert((a + b)[0] == a[0]);
        lemma_seq_sum_concat(a.drop_first(), b);
    }
}

pub proof fn lemma_seq_min_concat(a: Seq<int>, b: Seq<int>)
    requires
        a.len() > 0,
        b.len() > 0,
    ensures
        seq_min(a + b) == if seq_min(a) <= seq_min(b) {
            seq_min(a)
        } else {
            seq_min(b)
        },
    decreases a.len(),
{
    if a.len() == 1 {
        assert((a + b).drop_first() =~= b);
        assert((a + b)[0] == a[0]);
    } else {
        assert((a + b).drop_first() =~= a.drop_first() + b);
        assert((a + b)[0] == a[0]);
        lemma_seq_min_concat(a.drop_first(), b);
    }
}

pub proof fn lemma_seq_max_concat(a: Seq<int>, b: Seq<int>)
    requires
        a.len() > 0,
        b.len() > 0,
    ensures
        seq_max(a + b) == if seq_max(a) >= seq_max(b) {
            seq_max(a)
        } else {
            seq_max(b)
        },
    decreases a.len(),
{
    if a.len() == 1 {
        assert((a + b).drop_first() =~= b);
        assert((a + b)[0] == a[0]);
    } else {
        assert((a + b).drop_first() =~= a.drop_first() + b);
        assert((a + b)[0] == a[0]);
        lemma_seq_max_concat(a.drop_first(), b);
    }
}

pub proof fn lemma_seq_sum_bounds(s: Seq<int>, lo: int, hi: int)
    requires
        all_in_range(s, lo, hi),
    ensures
        s.len() * lo <= seq_sum(s) <= s.len() * hi,
    decreases s.len(),
{
    if s.len() == 0 {
    } else {
        assert forall|i: int| 0 <= i < s.drop_first().len() implies lo <= #[trigger] s.drop_first()[i] <= hi by {
            assert(s.drop_first()[i] == s[i + 1]);
        }
        lemma_seq_sum_bounds(s.drop_first(), lo, hi);
        assert(s.len() * lo == lo + (s.len() - 1) * lo) by (nonlinear_arith);
        assert(s.len() * hi == hi + (s.len() - 1) * hi) by (nonlinear_arith);
    }
}

} // verus!
