//! The input grid: a read-only, row-major 2D array of integer samples with a
//! designated no-data sentinel. Coordinates outside the grid read as no-data,
//! so windows near the boundary simply see absent samples.

use vstd::prelude::*;

verus! {

/// Largest accepted grid extent along either axis. Keeps every window
/// coordinate comfortably inside `i64` and every cell index inside `usize`.
pub const MAX_EXTENT: usize = 0x4000_0000;

pub struct Grid {
    pub rows: usize,
    pub columns: usize,
    pub no_data: i64,
    pub data: Vec<i64>,
}

impl Grid {
    pub open spec fn wf(self) -> bool {
        &&& 1 <= self.rows <= MAX_EXTENT
        &&& 1 <= self.columns <= MAX_EXTENT
        &&& self.data@.len() == self.rows * self.columns
    }

    pub open spec fn in_bounds(self, r: int, c: int) -> bool {
        0 <= r < self.rows && 0 <= c < self.columns
    }

    /// The sample at (r, c); out-of-bounds coordinates read as the sentinel.
    pub open spec fn sample(self, r: int, c: int) -> int {
        if self.in_bounds(r, c) {
            self.data@[r * self.columns + c] as int
        } else {
            self.no_data as int
        }
    }

    /// A coordinate contributes to an aggregate only when it is in bounds and
    /// its sample is not the sentinel.
    pub open spec fn valid_at(self, r: int, c: int) -> bool {
        self.sample(r, c) != self.no_data
    }

    pub fn new(rows: usize, columns: usize, no_data: i64, data: Vec<i64>) -> (g: Grid)
        requires
            1 <= rows <= MAX_EXTENT,
            1 <= columns <= MAX_EXTENT,
            data@.len() == rows * columns,
        ensures
            g.wf(),
            g.rows == rows,
            g.columns == columns,
            g.no_data == no_data,
            g.data@ == data@,
    {
        Grid { rows, columns, no_data, data }
    }

    /// Bounds-checked sample lookup, mirroring the spec's edge policy.
    pub fn get(&self, r: i64, c: i64) -> (z: i64)
        requires
            self.wf(),
        ensures
            z == self.sample(r as int, c as int),
    {
        if 0 <= r && r < self.rows as i64 && 0 <= c && c < self.columns as i64 {
            let ru: usize = r as usize;
            let cu: usize = c as usize;
            proof {
                assert(self.data.len() == self.data@.len());
                assert(ru * self.columns + cu < self.rows * self.columns) by (nonlinear_arith)
                    requires
                        ru < self.rows,
                        cu < self.columns,
                ;
            }
            self.data[ru * self.columns + cu]
        } else {
            self.no_data
        }
    }
}

} // verus!
