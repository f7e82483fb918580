//! The per-cell trim-mean rule and the row filter worker that drives the
//! window tracker across one output row.

use vstd::prelude::*;
use crate::config::FilterConfig;
use crate::grid::Grid;
use crate::neighborhood::{lemma_window_samples_in_i64, lemma_window_samples_len, window_around};
use crate::stats::{lemma_seq_sum_bounds, seq_max, seq_min, seq_sum};
use crate::window::WindowTracker;

verus! {

/// One output cell: the no-data sentinel, or an exact mean kept as a
/// numerator/denominator pair so that no rounding is imposed here.
#[derive(Clone, Copy, PartialEq, Eq, Structural, Debug)]
pub enum Cell {
    NoData,
    Value { num: i128, den: u64 },
}

/// Mathematical counterpart of `Cell`, over unbounded integers.
pub enum CellModel {
    NoData,
    Value { num: int, den: int },
}

impl Cell {
    pub open spec fn model(self) -> CellModel {
        match self {
            Cell::NoData => CellModel::NoData,
            Cell::Value { num, den } => CellModel::Value { num: num as int, den: den as int },
        }
    }
}

/// The output cell at (r, c): no data when the center sample is missing or no
/// valid sample is in view; the mean of the window with one occurrence of the
/// maximum and one of the minimum discarded when more than two samples are in
/// view; the plain mean of one or two samples otherwise.
pub open spec fn cell_spec(g: Grid, cfg: FilterConfig, r: int, c: int) -> CellModel {
    let w = window_around(g, r, c, cfg.half_x as int, cfg.half_y as int);
    if !g.valid_at(r, c) {
        CellModel::NoData
    } else if w.len() == 0 {
        CellModel::NoData
    } else if w.len() > 2 {
        CellModel::Value { num: seq_sum(w) - seq_max(w) - seq_min(w), den: w.len() - 2 }
    } else {
        CellModel::Value { num: seq_sum(w), den: w.len() as int }
    }
}

/// Center gating: a cell whose input sample is no-data is no-data in the
/// output, whatever its neighborhood holds.
pub proof fn lemma_center_gating(g: Grid, cfg: FilterConfig, r: int, c: int)
    requires
        !g.valid_at(r, c),
    ensures
        cell_spec(g, cfg, r, c) == CellModel::NoData,
{
}

/// A valid center with no valid sample in view yields no data: the degenerate
/// window is never divided by zero.
pub proof fn lemma_empty_window(g: Grid, cfg: FilterConfig, r: int, c: int)
    requires
        g.valid_at(r, c),
        window_around(g, r, c, cfg.half_x as int, cfg.half_y as int).len() == 0,
    ensures
        cell_spec(g, cfg, r, c) == CellModel::NoData,
{
}

/// Trimmed mean: with more than two valid samples in view, the output is the
/// window sum less one occurrence of the maximum and one of the minimum,
/// divided by the remaining count.
pub proof fn lemma_trimmed_mean(g: Grid, cfg: FilterConfig, r: int, c: int)
    requires
        g.valid_at(r, c),
        window_around(g, r, c, cfg.half_x as int, cfg.half_y as int).len() > 2,
    ensures
        cell_spec(g, cfg, r, c) == (CellModel::Value {
            num: seq_sum(window_around(g, r, c, cfg.half_x as int, cfg.half_y as int)) - seq_max(
                window_around(g, r, c, cfg.half_x as int, cfg.half_y as int),
            ) - seq_min(window_around(g, r, c, cfg.half_x as int, cfg.half_y as int)),
            den: window_around(g, r, c, cfg.half_x as int, cfg.half_y as int).len() - 2,
        }),
{
}

/// Plain-mean fallback: with one or two valid samples in view, the output is
/// their untrimmed mean.
pub proof fn lemma_plain_mean(g: Grid, cfg: FilterConfig, r: int, c: int)
    requires
        g.valid_at(r, c),
        1 <= window_around(g, r, c, cfg.half_x as int, cfg.half_y as int).len() <= 2,
    ensures
        cell_spec(g, cfg, r, c) == (CellModel::Value {
            num: seq_sum(window_around(g, r, c, cfg.half_x as int, cfg.half_y as int)),
            den: window_around(g, r, c, cfg.half_x as int, cfg.half_y as int).len() as int,
        }),
{
}

/// Produces one complete output row by sliding the window tracker across it.
#[verifier::loop_isolation(false)]
pub fn filter_row(g: &Grid, cfg: &FilterConfig, row: i64) -> (out: Vec<Cell>)
    requires
        g.wf(),
        cfg.wf(),
        0 <= row < g.rows,
    ensures
        out@.len() == g.columns,
        forall|c: int|
            0 <= c < g.columns ==> (#[trigger] out@[c]).model() == cell_spec(
                *g,
                *cfg,
                row as int,
                c,
            ),
{
    let cols: i64 = g.columns as i64;
    let mut out: Vec<Cell> = Vec::with_capacity(g.columns);
    let mut tracker = WindowTracker::new(g, cfg, row);
    let mut c: i64 = 0;
    while c < cols
        invariant
            0 <= c <= cols,
            tracker.col == if c < cols {
                c as int
            } else {
                cols - 1
            },
            tracker.inv(*g),
            tracker.row == row,
            tracker.half_x == cfg.half_x,
            tracker.half_y == cfg.half_y,
            out@.len() == c,
            forall|j: int|
                0 <= j < c ==> (#[trigger] out@[j]).model() == cell_spec(*g, *cfg, row as int, j),
        decreases cols - c,
    {
        let agg = tracker.combined(g);
        let ghost w = tracker.window(*g);
        let z = g.get(row, c);
        proof {
            lemma_window_samples_len(
                *g,
                c - cfg.half_x,
                c + cfg.half_x + 1,
                row - cfg.half_y,
                row + cfg.half_y + 1,
            );
            assert((2 * cfg.half_x + 1) * (2 * cfg.half_y + 1) <= 0xFFFF * 0xFFFF)
                by (nonlinear_arith)
                requires
                    0 < 2 * cfg.half_x + 1 <= 0xFFFF,
                    0 < 2 * cfg.half_y + 1 <= 0xFFFF,
            ;
            lemma_window_samples_in_i64(
                *g,
                c - cfg.half_x,
                c + cfg.half_x + 1,
                row - cfg.half_y,
                row + cfg.half_y + 1,
            );
            lemma_seq_sum_bounds(w, i64::MIN as int, i64::MAX as int);
            assert(w.len() * (i64::MIN as int) >= 0xFFFE0001 * (i64::MIN as int))
                by (nonlinear_arith)
                requires
                    w.len() <= 0xFFFE0001,
            ;
            assert(w.len() * (i64::MAX as int) <= 0xFFFE0001 * (i64::MAX as int))
                by (nonlinear_arith)
                requires
                    w.len() <= 0xFFFE0001,
            ;
        }
        let cell = if z == g.no_data {
            Cell::NoData
        } else if agg.count == 0 {
            Cell::NoData
        } else if agg.count > 2 {
            Cell::Value {
                num: agg.sum - agg.max as i128 - agg.min as i128,
                den: (agg.count - 2) as u64,
            }
        } else {
            Cell::Value { num: agg.sum, den: agg.count as u64 }
        };
        out.push(cell);
        if c + 1 < cols {
            tracker.advance(g);
        }
        c = c + 1;
    }
    out
}

} // verus!
