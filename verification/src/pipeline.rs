//! The whole filtering run: partition the rows into blocks, filter every row
//! of every block, and collect each finished row into the output grid.

use vstd::prelude::*;
use crate::config::FilterConfig;
use crate::filter::{cell_spec, filter_row};
use crate::grid::Grid;
use crate::output::OutputGrid;
use crate::schedule::{
    block_end, block_start, lemma_blocks_contiguous, row_blocks, worker_count,
};

verus! {

/// Relies on num_cpus::get: the detected hardware parallelism, documented to
/// always be at least one.
#[verifier::external_body]
fn detect_parallelism() -> (n: usize)
    ensures
        n >= 1,
{
    num_cpus::get()
}

/// The first `f` rows of the output are exactly the filtered rows of the
/// input, and precisely those rows have been received.
pub open spec fn assembled_upto(out: OutputGrid, g: Grid, cfg: FilterConfig, f: int) -> bool {
    &&& forall|r: int| 0 <= r < out.rows ==> (#[trigger] out.row_filled(r) <==> r < f)
    &&& forall|r: int, c: int|
        0 <= r < f && 0 <= c < out.columns ==> (#[trigger] out.cell(r, c)).model() == cell_spec(
            g,
            cfg,
            r,
            c,
        )
}

/// The row already reached by a run that stands before block `b`.
pub open spec fn spec_frontier(rows: int, workers: int, b: int) -> int {
    if b >= workers {
        rows
    } else {
        block_start(rows, workers, b)
    }
}

/// Filters the whole grid with an explicit worker count: rows are assigned to
/// workers in contiguous blocks and every finished row is collected at its
/// own index. The output has exactly the input's dimensions, every row
/// arrives exactly once, and every cell obeys the per-cell trim-mean rule.
#[verifier::loop_isolation(false)]
pub fn filter_grid_with_workers(g: &Grid, cfg: &FilterConfig, workers: usize) -> (out: OutputGrid)
    requires
        g.wf(),
        cfg.wf(),
        1 <= workers <= g.rows,
    ensures
        out.wf(),
        out.rows == g.rows,
        out.columns == g.columns,
        out.complete(),
        forall|r: int, c: int|
            0 <= r < g.rows && 0 <= c < g.columns ==> (#[trigger] out.cell(r, c)).model()
                == cell_spec(*g, *cfg, r, c),
{
    proof {
        assert(g.data.len() == g.data@.len());
    }
    let blocks = row_blocks(g.rows, workers);
    let mut out = OutputGrid::new(g.rows, g.columns);
    let mut b: usize = 0;
    while b < workers
        invariant
            0 <= b <= workers,
            out.wf(),
            out.rows == g.rows,
            out.columns == g.columns,
            out.received == spec_frontier(g.rows as int, workers as int, b as int),
            assembled_upto(out, *g, *cfg, spec_frontier(g.rows as int, workers as int, b as int)),
        decreases workers - b,
    {
        proof {
            lemma_blocks_contiguous(g.rows as int, workers as int, b as int);
        }
        let (start, end) = blocks[b];
        let mut r: usize = start;
        while r < end
            invariant
                block_start(g.rows as int, workers as int, b as int) <= r <= end,
                end == block_end(g.rows as int, workers as int, b as int),
                out.wf(),
                out.rows == g.rows,
                out.columns == g.columns,
                out.received == r,
                assembled_upto(out, *g, *cfg, r as int),
            decreases end - r,
        {
            let data = filter_row(g, cfg, r as i64);
            let ghost prev = out;
            let ghost dataview = data@;
            out.set_row(r, data);
            proof {
                assert forall|idx: int|
                    0 <= idx < out.rows implies (#[trigger] out.row_filled(idx) <==> idx < r
                    + 1) by {
                    assert(out.filled@ == prev.filled@.update(r as int, true));
                    assert(prev.row_filled(idx) <==> idx < r);
                }
                assert forall|idx: int, c: int|
                    0 <= idx < r + 1 && 0 <= c < out.columns implies (#[trigger] out.cell(
                    idx,
                    c,
                )).model() == cell_spec(*g, *cfg, idx, c) by {
                    if idx == r {
                        assert(out.cell(idx, c) == dataview[c]);
                    } else {
                        assert(out.cell(idx, c) == prev.cell(idx, c));
                        assert(prev.cell(idx, c).model() == cell_spec(*g, *cfg, idx, c));
                    }
                }
            }
            r = r + 1;
        }
        proof {
            if b + 1 < workers {
                lemma_blocks_contiguous(g.rows as int, workers as int, b as int);
            }
        }
        b = b + 1;
    }
    out
}

/// Filters the whole grid, defaulting the worker count to the detected
/// hardware parallelism, capped at the row count.
pub fn filter_grid(g: &Grid, cfg: &FilterConfig) -> (out: OutputGrid)
    requires
        g.wf(),
        cfg.wf(),
    ensures
        out.wf(),
        out.rows == g.rows,
        out.columns == g.columns,
        out.complete(),
        forall|r: int, c: int|
            0 <= r < g.rows && 0 <= c < g.columns ==> (#[trigger] out.cell(r, c)).model()
                == cell_spec(*g, *cfg, r, c),
{
    let p = detect_parallelism();
    let w = worker_count(p, g.rows);
    filter_grid_with_workers(g, cfg, w)
}

} // verus!
