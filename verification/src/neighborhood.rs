//! The brute-force model of a filter window: the sequence of valid samples in
//! a vertical strip of one column, and the concatenation of those strips over
//! the horizontal extent of the window. Every tracker contract is stated
//! against these definitions.

use vstd::prelude::*;
use crate::grid::Grid;
use crate::stats::all_in_range;

verus! {

/// The valid samples of column `c` over rows `r0 <= r < r1`, in row order.
/// Out-of-bounds and sentinel-valued coordinates contribute nothing.
pub open spec fn col_samples(g: Grid, c: int, r0: int, r1: int) -> Seq<int>
    decreases r1 - r0,
{
    if r1 <= r0 {
        Seq::empty()
    } else {
        col_samples(g, c, r0, r1 - 1) + (if g.valid_at(r1 - 1, c) {
            seq![g.sample(r1 - 1, c)]
        } else {
            Seq::<int>::empty()
        })
    }
}

/// The valid samples of the rectangle with columns `c0 <= c < c1` and rows
/// `r0 <= r < r1`, column strip by column strip.
pub open spec fn window_samples(g: Grid, c0: int, c1: int, r0: int, r1: int) -> Seq<int>
    decreases c1 - c0,
{
    if c1 <= c0 {
        Seq::empty()
    } else {
        window_samples(g, c0, c1 - 1, r0, r1) + col_samples(g, c1 - 1, r0, r1)
    }
}

/// The window of valid samples centered on (r, c) with half-extents hx, hy.
pub open spec fn window_around(g: Grid, r: int, c: int, hx: int, hy: int) -> Seq<int> {
    window_samples(g, c - hx, c + hx + 1, r - hy, r + hy + 1)
}

pub proof fn lemma_col_samples_len(g: Grid, c: int, r0: int, r1: int)
    requires
        r0 <= r1,
    ensures
        col_samples(g, c, r0, r1).len() <= r1 - r0,
    decreases r1 - r0,
{
    if r0 < r1 {
        lemma_col_samples_len(g, c, r0, r1 - 1);
    }
}

pub proof fn lemma_col_samples_in_i64(g: Grid, c: int, r0: int, r1: int)
    ensures
        all_in_range(col_samples(g, c, r0, r1), i64::MIN as int, i64::MAX as int),
    decreases r1 - r0,
{
    if r1 <= r0 {
    } else {
        lemma_col_samples_in_i64(g, c, r0, r1 - 1);
        let tail = if g.valid_at(r1 - 1, c) {
            seq![g.sample(r1 - 1, c)]
        } else {
            Seq::<int>::empty()
        };
        if g.valid_at(r1 - 1, c) {
            assert(i64::MIN <= g.sample(r1 - 1, c) <= i64::MAX);
            assert(all_in_range(tail, i64::MIN as int, i64::MAX as int));
        }
        crate::stats::lemma_all_in_range_concat(
            col_samples(g, c, r0, r1 - 1),
            tail,
            i64::MIN as int,
            i64::MAX as int,
        );
    }
}

pub proof fn lemma_window_samples_len(g: Grid, c0: int, c1: int, r0: int, r1: int)
    requires
        r0 <= r1,
        c0 <= c1,
    ensures
        window_samples(g, c0, c1, r0, r1).len() <= (c1 - c0) * (r1 - r0),
    decreases c1 - c0,
{
    if c0 < c1 {
        lemma_window_samples_len(g, c0, c1 - 1, r0, r1);
        lemma_col_samples_len(g, c1 - 1, r0, r1);
        assert((c1 - c0) * (r1 - r0) == (c1 - 1 - c0) * (r1 - r0) + (r1 - r0)) by (nonlinear_arith);
    }
}

pub proof fn lemma_window_samples_in_i64(g: Grid, c0: int, c1: int, r0: int, r1: int)
    ensures
        all_in_range(window_samples(g, c0, c1, r0, r1), i64::MIN as int, i64::MAX as int),
    decreases c1 - c0,
{
    if c1 <= c0 {
    } else {
        lemma_window_samples_in_i64(g, c0, c1 - 1, r0, r1);
        lemma_col_samples_in_i64(g, c1 - 1, r0, r1);
        crate::stats::lemma_all_in_range_concat(
            window_samples(g, c0, c1 - 1, r0, r1),
            col_samples(g, c1 - 1, r0, r1),
            i64::MIN as int,
            i64::MAX as int,
        );
    }
}

} // verus!
