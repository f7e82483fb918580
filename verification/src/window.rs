//! The window statistics tracker: a sliding horizontal window of per-column
//! vertical strip aggregates. Moving the window one column to the right pops
//! the leftmost strip and computes exactly one new strip, so each output cell
//! costs O(window width) instead of O(window area).

use vstd::prelude::*;
use std::collections::VecDeque;
use crate::config::FilterConfig;
use crate::grid::Grid;
use crate::neighborhood::{
    col_samples, lemma_col_samples_in_i64, lemma_col_samples_len, lemma_window_samples_in_i64,
    lemma_window_samples_len, window_around, window_samples,
};
use crate::stats::{
    lemma_seq_max_concat, lemma_seq_max_singleton, lemma_seq_min_concat, lemma_seq_min_singleton,
    lemma_seq_sum_bounds, lemma_seq_sum_concat, lemma_seq_sum_singleton, seq_max, seq_min, seq_sum,
};

verus! {

/// Vertical aggregate of one column slice of the window. When the slice holds
/// no valid sample, `min` and `max` sit at the identity values of the running
/// comparisons and only `count == 0` is meaningful.
#[derive(Clone, Copy)]
pub struct Strip {
    pub min: i64,
    pub max: i64,
    pub sum: i128,
    pub count: usize,
}

/// The strip holds exactly the aggregates of column `c` over rows `[r0, r1)`.
pub open spec fn strip_matches(s: Strip, g: Grid, c: int, r0: int, r1: int) -> bool {
    let q = col_samples(g, c, r0, r1);
    &&& s.count == q.len()
    &&& s.sum == seq_sum(q)
    &&& q.len() > 0 ==> s.min == seq_min(q) && s.max == seq_max(q)
}

/// Scans one column's full vertical extent and aggregates its valid samples.
#[verifier::loop_isolation(false)]
pub fn compute_strip(g: &Grid, c: i64, r0: i64, r1: i64) -> (s: Strip)
    requires
        g.wf(),
        r0 <= r1,
        r1 - r0 <= 0xFFFF,
    ensures
        strip_matches(s, *g, c as int, r0 as int, r1 as int),
        s.count <= r1 - r0,
{
    let mut min: i64 = i64::MAX;
    let mut max: i64 = i64::MIN;
    let mut sum: i128 = 0;
    let mut count: usize = 0;
    let mut r: i64 = r0;
    proof {
        lemma_col_samples_len(*g, c as int, r0 as int, r1 as int);
    }
    while r < r1
        invariant
            r0 <= r <= r1,
            count == col_samples(*g, c as int, r0 as int, r as int).len(),
            sum == seq_sum(col_samples(*g, c as int, r0 as int, r as int)),
            count > 0 ==> min == seq_min(col_samples(*g, c as int, r0 as int, r as int)) && max
                == seq_max(col_samples(*g, c as int, r0 as int, r as int)),
            count == 0 ==> min == i64::MAX && max == i64::MIN,
            count <= r - r0,
        decreases r1 - r,
    {
        let ghost q = col_samples(*g, c as int, r0 as int, r as int);
        let ghost qn = col_samples(*g, c as int, r0 as int, r as int + 1);
        let z = g.get(r, c);
        if z != g.no_data {
            proof {
                assert(g.valid_at(r as int, c as int));
                assert(qn == q + seq![g.sample(r as int, c as int)]);
                lemma_seq_sum_singleton(z as int);
                lemma_seq_min_singleton(z as int);
                lemma_seq_max_singleton(z as int);
                lemma_seq_sum_concat(q, seq![z as int]);
                if q.len() > 0 {
                    lemma_seq_min_concat(q, seq![z as int]);
                    lemma_seq_max_concat(q, seq![z as int]);
                } else {
                    assert(qn =~= seq![z as int]);
                }
                lemma_col_samples_in_i64(*g, c as int, r0 as int, r as int);
                lemma_seq_sum_bounds(q, i64::MIN as int, i64::MAX as int);
                assert(q.len() * (i64::MIN as int) >= 0xFFFF * (i64::MIN as int))
                    by (nonlinear_arith)
                    requires
                        q.len() <= 0xFFFF,
                ;
                assert(q.len() * (i64::MAX as int) <= 0xFFFF * (i64::MAX as int))
                    by (nonlinear_arith)
                    requires
                        q.len() <= 0xFFFF,
                ;
            }
            if z < min {
                min = z;
            }
            if z > max {
                max = z;
            }
            sum = sum + z as i128;
            count = count + 1;
        } else {
            proof {
                assert(!g.valid_at(r as int, c as int));
                assert(qn =~= q);
            }
        }
        r = r + 1;
    }
    Strip { min, max, sum, count }
}

/// Combined aggregate of every strip currently in view: the statistics of the
/// full window centered on the tracker's current cell.
#[derive(Clone, Copy)]
pub struct WindowAggregate {
    pub min: i64,
    pub max: i64,
    pub sum: i128,
    pub count: usize,
}

/// The aggregate holds exactly the statistics of the sample sequence `w`.
pub open spec fn aggregate_matches(a: WindowAggregate, w: Seq<int>) -> bool {
    &&& a.count == w.len()
    &&& a.sum == seq_sum(w)
    &&& w.len() > 0 ==> a.min == seq_min(w) && a.max == seq_max(w)
}

/// Sliding window of vertical strips for one output row. The front of the
/// deque is the leftmost strip; strip `i` covers column `col - half_x + i`.
pub struct WindowTracker {
    pub strips: VecDeque<Strip>,
    pub row: i64,
    pub col: i64,
    pub half_x: i64,
    pub half_y: i64,
}

impl WindowTracker {
    pub open spec fn inv(self, g: Grid) -> bool {
        &&& g.wf()
        &&& 1 <= self.half_x <= 0x7FFF
        &&& 1 <= self.half_y <= 0x7FFF
        &&& 0 <= self.row < g.rows
        &&& 0 <= self.col < g.columns
        &&& self.strips@.len() == 2 * self.half_x + 1
        &&& forall|i: int|
            0 <= i < self.strips@.len() ==> strip_matches(
                #[trigger] self.strips@[i],
                g,
                self.col - self.half_x + i,
                self.row - self.half_y,
                self.row + self.half_y + 1,
            )
    }

    /// The brute-force model of the samples currently in view.
    pub open spec fn window(self, g: Grid) -> Seq<int> {
        window_around(g, self.row as int, self.col as int, self.half_x as int, self.half_y as int)
    }

    /// The samples of the leftmost `i` strips in view.
    pub open spec fn window_prefix(self, g: Grid, i: int) -> Seq<int> {
        window_samples(
            g,
            self.col - self.half_x,
            self.col - self.half_x + i,
            self.row - self.half_y,
            self.row + self.half_y + 1,
        )
    }

    /// Builds the window for column 0 of `row`, computing every strip from
    /// scratch. This is the only full-window scan of the row.
    #[verifier::loop_isolation(false)]
    pub fn new(g: &Grid, cfg: &FilterConfig, row: i64) -> (t: WindowTracker)
        requires
            g.wf(),
            cfg.wf(),
            0 <= row < g.rows,
        ensures
            t.inv(*g),
            t.row == row,
            t.col == 0,
            t.half_x == cfg.half_x,
            t.half_y == cfg.half_y,
    {
        let hx: i64 = cfg.half_x as i64;
        let hy: i64 = cfg.half_y as i64;
        let mut strips: VecDeque<Strip> = VecDeque::with_capacity(cfg.width_x);
        let mut d: i64 = -hx;
        while d <= hx
            invariant
                -hx <= d <= hx + 1,
                strips@.len() == d + hx,
                forall|i: int|
                    0 <= i < strips@.len() ==> strip_matches(
                        #[trigger] strips@[i],
                        *g,
                        -hx + i,
                        row - hy,
                        row + hy + 1,
                    ),
            decreases hx + 1 - d,
        {
            let s = compute_strip(g, d, row - hy, row + hy + 1);
            strips.push_back(s);
            d = d + 1;
        }
        WindowTracker { strips, row, col: 0, half_x: hx, half_y: hy }
    }

    /// Slides the window one column to the right: pops the leftmost strip and
    /// computes exactly one new strip for the column entering on the right.
    #[verifier::loop_isolation(false)]
    pub fn advance(&mut self, g: &Grid)
        requires
            old(self).inv(*g),
            old(self).col + 1 < g.columns,
        ensures
            final(self).inv(*g),
            final(self).col == old(self).col + 1,
            final(self).row == old(self).row,
            final(self).half_x == old(self).half_x,
            final(self).half_y == old(self).half_y,
    {
        let ghost pre = self.strips@;
        let _ = self.strips.pop_front();
        let s = compute_strip(
            g,
            self.col + 1 + self.half_x,
            self.row - self.half_y,
            self.row + self.half_y + 1,
        );
        self.strips.push_back(s);
        self.col = self.col + 1;
        proof {
            let post = self.strips@;
            assert(post.len() == 2 * self.half_x + 1);
            assert forall|i: int|
                0 <= i < post.len() implies strip_matches(
                #[trigger] post[i],
                *g,
                self.col - self.half_x + i,
                self.row - self.half_y,
                self.row + self.half_y + 1,
            ) by {
                if i < post.len() - 1 {
                    assert(post[i] == pre[i + 1]);
                    assert(strip_matches(
                        pre[i + 1],
                        *g,
                        (self.col - 1) - self.half_x + (i + 1),
                        self.row - self.half_y,
                        self.row + self.half_y + 1,
                    ));
                } else {
                    assert(post[i] == s);
                }
            }
        }
    }

    /// Reduces the strips in view to the aggregate of the whole window: the
    /// same statistics a brute-force scan of the full rectangle would give.
    #[verifier::loop_isolation(false)]
    pub fn combined(&self, g: &Grid) -> (a: WindowAggregate)
        requires
            self.inv(*g),
        ensures
            aggregate_matches(a, self.window(*g)),
    {
        let ghost r0 = self.row - self.half_y;
        let ghost r1 = self.row + self.half_y + 1;
        let ghost c0 = self.col - self.half_x;
        let mut min: i64 = i64::MAX;
        let mut max: i64 = i64::MIN;
        let mut sum: i128 = 0;
        let mut count: usize = 0;
        let n = self.strips.len();
        let mut i: usize = 0;
        while i < n
            invariant
                0 <= i <= n,
                count == self.window_prefix(*g, i as int).len(),
                sum == seq_sum(self.window_prefix(*g, i as int)),
                count > 0 ==> min == seq_min(self.window_prefix(*g, i as int)) && max == seq_max(
                    self.window_prefix(*g, i as int),
                ),
                count == 0 ==> min == i64::MAX && max == i64::MIN,
            decreases n - i,
        {
            let s = self.strips[i];
            let ghost w = self.window_prefix(*g, i as int);
            let ghost wn = self.window_prefix(*g, i as int + 1);
            let ghost q = col_samples(*g, c0 + i, r0, r1);
            proof {
                assert(strip_matches(self.strips@[i as int], *g, c0 + i, r0, r1));
                assert(wn == w + q);
                lemma_seq_sum_concat(w, q);
                if q.len() == 0 {
                    assert(wn =~= w);
                } else {
                    if w.len() > 0 {
                        lemma_seq_min_concat(w, q);
                        lemma_seq_max_concat(w, q);
                    } else {
                        assert(wn =~= q);
                    }
                }
                lemma_window_samples_len(*g, c0, c0 + i + 1, r0, r1);
                assert((i + 1) * (r1 - r0) <= 0xFFFF * 0xFFFF) by (nonlinear_arith)
                    requires
                        0 <= i + 1 <= 0xFFFF,
                        0 <= r1 - r0 <= 0xFFFF,
                ;
                lemma_window_samples_in_i64(*g, c0, c0 + i as int, r0, r1);
                lemma_seq_sum_bounds(w, i64::MIN as int, i64::MAX as int);
                lemma_col_samples_in_i64(*g, c0 + i, r0, r1);
                lemma_seq_sum_bounds(q, i64::MIN as int, i64::MAX as int);
                lemma_col_samples_len(*g, c0 + i, r0, r1);
                assert(w.len() * (i64::MIN as int) >= 0xFFFF0001 * (i64::MIN as int))
                    by (nonlinear_arith)
                    requires
                        w.len() <= 0xFFFF0001,
                ;
                assert(w.len() * (i64::MAX as int) <= 0xFFFF0001 * (i64::MAX as int))
                    by (nonlinear_arith)
                    requires
                        w.len() <= 0xFFFF0001,
                ;
                assert(q.len() * (i64::MIN as int) >= 0xFFFF * (i64::MIN as int))
                    by (nonlinear_arith)
                    requires
                        q.len() <= 0xFFFF,
                ;
                assert(q.len() * (i64::MAX as int) <= 0xFFFF * (i64::MAX as int))
                    by (nonlinear_arith)
                    requires
                        q.len() <= 0xFFFF,
                ;
            }
            if s.count > 0 {
                if s.min < min {
                    min = s.min;
                }
                if s.max > max {
                    max = s.max;
                }
                sum = sum + s.sum;
                count = count + s.count;
            } else {
                proof {
                    assert(q.len() == 0);
                }
            }
            i = i + 1;
        }
        proof {
            assert(self.window_prefix(*g, n as int) == self.window(*g));
        }
        WindowAggregate { min, max, sum, count }
    }
}

} // verus!
