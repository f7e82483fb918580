//! The result collector: completed rows arrive in arbitrary order, each
//! exactly once, and are placed at their row index in the output grid.
//! Progress is measured by rows received, not by row order.

use vstd::prelude::*;
use crate::filter::Cell;
use crate::grid::MAX_EXTENT;

verus! {

pub open spec fn count_true(s: Seq<bool>) -> int
    decreases s.len(),
{
    if s.len() == 0 {
        0
    } else {
        count_true(s.drop_last()) + if s.last() {
            1int
        } else {
            0int
        }
    }
}

pub proof fn lemma_count_true_bounds(s: Seq<bool>)
    ensures
        0 <= count_true(s) <= s.len(),
    decreases s.len(),
{
    if s.len() > 0 {
        lemma_count_true_bounds(s.drop_last());
    }
}

pub proof fn lemma_count_true_update(s: Seq<bool>, r: int)
    requires
        0 <= r < s.len(),
        !s[r],
    ensures
        count_true(s.update(r, true)) == count_true(s) + 1,
    decreases s.len(),
{
    let u = s.update(r, true);
    if r == s.len() - 1 {
        assert(u.drop_last() =~= s.drop_last());
    } else {
        assert(u.drop_last() =~= s.drop_last().update(r, true));
        assert(u.last() == s.last());
        lemma_count_true_update(s.drop_last(), r);
    }
}

pub proof fn lemma_count_true_full(s: Seq<bool>)
    requires
        count_true(s) == s.len(),
    ensures
        forall|i: int| 0 <= i < s.len() ==> s[i],
    decreases s.len(),
{
    if s.len() > 0 {
        lemma_count_true_bounds(s.drop_last());
        lemma_count_true_full(s.drop_last());
        assert forall|i: int| 0 <= i < s.len() implies s[i] by {
            if i < s.len() - 1 {
                assert(s.drop_last()[i]);
            }
        }
    }
}

/// The output grid under assembly. `filled` records which rows have arrived;
/// `received` counts them, for monotone progress reporting.
pub struct OutputGrid {
    pub rows: usize,
    pub columns: usize,
    pub cells: Vec<Cell>,
    pub filled: Vec<bool>,
    pub received: usize,
}

impl OutputGrid {
    pub open spec fn wf(self) -> bool {
        &&& 1 <= self.rows <= MAX_EXTENT
        &&& 1 <= self.columns <= MAX_EXTENT
        &&& self.cells@.len() == self.rows * self.columns
        &&& self.filled@.len() == self.rows
        &&& self.received == count_true(self.filled@)
    }

    pub open spec fn row_filled(self, r: int) -> bool {
        self.filled@[r]
    }

    pub open spec fn cell(self, r: int, c: int) -> Cell {
        self.cells@[r * self.columns + c]
    }

    /// Exactly one row has arrived for every row index.
    pub open spec fn complete(self) -> bool {
        self.received == self.rows
    }

    /// An empty output grid: every cell the sentinel, no row received yet.
    pub fn new(rows: usize, columns: usize) -> (o: OutputGrid)
        requires
            1 <= rows <= MAX_EXTENT,
            1 <= columns <= MAX_EXTENT,
            rows * columns <= usize::MAX,
        ensures
            o.wf(),
            o.rows == rows,
            o.columns == columns,
            o.received == 0,
            forall|r: int| 0 <= r < rows ==> !o.row_filled(r),
    {
        let n: usize = rows * columns;
        let mut cells: Vec<Cell> = Vec::with_capacity(n);
        let mut i: usize = 0;
        while i < n
            invariant
                0 <= i <= n,
                cells@.len() == i,
            decreases n - i,
        {
            cells.push(Cell::NoData);
            i = i + 1;
        }
        let mut filled: Vec<bool> = Vec::with_capacity(rows);
        let mut r: usize = 0;
        while r < rows
            invariant
                0 <= r <= rows,
                filled@.len() == r,
                forall|j: int| 0 <= j < r ==> !(#[trigger] filled@[j]),
                count_true(filled@) == 0,
            decreases rows - r,
        {
            let ghost pre = filled@;
            filled.push(false);
            proof {
                assert(filled@.drop_last() =~= pre);
            }
            r = r + 1;
        }
        OutputGrid { rows, columns, cells, filled, received: 0 }
    }

    /// Places one completed row at its index. Each row index may arrive only
    /// once; all other rows are untouched.
    #[verifier::loop_isolation(false)]
    pub fn set_row(&mut self, r: usize, data: Vec<Cell>)
        requires
            old(self).wf(),
            r < old(self).rows,
            data@.len() == old(self).columns,
            !old(self).row_filled(r as int),
        ensures
            final(self).wf(),
            final(self).rows == old(self).rows,
            final(self).columns == old(self).columns,
            final(self).received == old(self).received + 1,
            final(self).filled@ == old(self).filled@.update(r as int, true),
            forall|c: int| 0 <= c < old(self).columns ==> final(self).cell(r as int, c) == data@[c],
            forall|r2: int, c: int|
                0 <= r2 < old(self).rows && r2 != r && 0 <= c < old(self).columns
                    ==> final(self).cell(r2, c) == old(self).cell(r2, c),
    {
        proof {
            lemma_count_true_bounds(self.filled@);
            lemma_count_true_update(self.filled@, r as int);
            assert(self.cells.len() == self.cells@.len());
            assert(r * self.columns + self.columns <= self.rows * self.columns)
                by (nonlinear_arith)
                requires
                    r < self.rows,
                    self.columns >= 0,
            ;
        }
        let base: usize = r * self.columns;
        let mut c: usize = 0;
        while c < self.columns
            invariant
                0 <= c <= self.columns,
                self.rows == old(self).rows,
                self.columns == old(self).columns,
                self.filled@ == old(self).filled@,
                self.received == old(self).received,
                self.cells@.len() == self.rows * self.columns,
                base + self.columns <= self.cells@.len(),
                forall|j: int| 0 <= j < c ==> self.cells@[base + j] == data@[j],
                forall|k: int|
                    0 <= k < self.cells@.len() && !(base <= k < base + c) ==> self.cells@[k] == old(
                        self,
                    ).cells@[k],
            decreases self.columns - c,
        {
            let v = data[c];
            self.cells[base + c] = v;
            c = c + 1;
        }
        self.filled[r] = true;
        self.received = self.received + 1;
        proof {
            assert forall|r2: int, cc: int|
                0 <= r2 < self.rows && r2 != r && 0 <= cc < self.columns implies self.cell(r2, cc)
                == old(self).cell(r2, cc) by {
                assert(r2 * self.columns + cc < self.rows * self.columns && !(r * self.columns <= r2
                    * self.columns + cc < r * self.columns + self.columns)) by (nonlinear_arith)
                    requires
                        0 <= r2 < self.rows,
                        0 <= cc < self.columns,
                        r2 != r,
                        0 <= r < self.rows,
                ;
            }
        }
    }

    /// True exactly when every row has arrived and the grid is ready for
    /// persistence.
    pub fn is_complete(&self) -> (b: bool)
        requires
            self.wf(),
        ensures
            b == self.complete(),
    {
        self.received == self.rows
    }
}

/// A complete output grid has every row filled.
pub proof fn lemma_complete_all_filled(o: OutputGrid)
    requires
        o.wf(),
        o.complete(),
    ensures
        forall|r: int| 0 <= r < o.rows ==> o.row_filled(r),
{
    lemma_count_true_full(o.filled@);
}

/// Progress as an integer percentage of rows received, monotone in the count
/// of rows received so far.
pub fn progress_percent(received: usize, rows: usize) -> (p: u8)
    requires
        1 <= rows <= MAX_EXTENT,
        received <= rows,
    ensures
        p == 100 * received / (rows as int),
        p <= 100,
{
    proof {
        assert(100 * received / (rows as int) <= 100) by (nonlinear_arith)
            requires
                1 <= rows,
                0 <= received <= rows,
        ;
    }
    ((100u64 * received as u64) / (rows as u64)) as u8
}

} // verus!
