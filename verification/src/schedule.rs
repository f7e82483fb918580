//! The row-block scheduler: the row range is split into one contiguous block
//! per worker, so no two workers ever touch the same output row and workers
//! need no synchronization while computing.

use vstd::prelude::*;

verus! {

/// Start of worker `i`'s contiguous row block.
pub open spec fn block_start(rows: int, workers: int, i: int) -> int {
    i * (rows / workers)
}

/// End (exclusive) of worker `i`'s block. Blocks share one size, except that
/// the final block absorbs the remainder left by the integer division.
pub open spec fn block_end(rows: int, workers: int, i: int) -> int {
    if i == workers - 1 {
        rows
    } else {
        (i + 1) * (rows / workers)
    }
}

/// Caps the detected parallelism at the row count and raises it to at least
/// one, so every worker owns a non-empty block.
pub fn worker_count(parallelism: usize, rows: usize) -> (w: usize)
    requires
        rows >= 1,
    ensures
        1 <= w <= rows,
        w == if parallelism < 1 {
            1int
        } else if parallelism > rows {
            rows as int
        } else {
            parallelism as int
        },
{
    if parallelism < 1 {
        1
    } else if parallelism > rows {
        rows
    } else {
        parallelism
    }
}

/// Partitions `[0, rows)` into `workers` contiguous, non-empty blocks, one
/// per worker, in order.
#[verifier::loop_isolation(false)]
pub fn row_blocks(rows: usize, workers: usize) -> (blocks: Vec<(usize, usize)>)
    requires
        1 <= workers <= rows,
    ensures
        blocks@.len() == workers,
        forall|i: int|
            0 <= i < workers ==> (#[trigger] blocks@[i]).0 == block_start(
                rows as int,
                workers as int,
                i,
            ) && blocks@[i].1 == block_end(rows as int, workers as int, i),
{
    let bs: usize = rows / workers;
    proof {
        assert(workers * bs <= rows && bs >= 1) by (nonlinear_arith)
            requires
                1 <= workers <= rows,
                bs == rows as int / workers as int,
        ;
    }
    let mut blocks: Vec<(usize, usize)> = Vec::with_capacity(workers);
    let mut i: usize = 0;
    while i < workers
        invariant
            0 <= i <= workers,
            blocks@.len() == i,
            forall|j: int|
                0 <= j < i ==> (#[trigger] blocks@[j]).0 == block_start(
                    rows as int,
                    workers as int,
                    j,
                ) && blocks@[j].1 == block_end(rows as int, workers as int, j),
        decreases workers - i,
    {
        proof {
            assert((i + 1) * bs <= workers * bs) by (nonlinear_arith)
                requires
                    i + 1 <= workers,
                    bs >= 0,
            ;
            assert(i * bs <= (i + 1) * bs) by (nonlinear_arith)
                requires
                    bs >= 0,
            ;
        }
        let start: usize = i * bs;
        let end: usize = if i == workers - 1 {
            rows
        } else {
            (i + 1) * bs
        };
        blocks.push((start, end));
        i = i + 1;
    }
    blocks
}

/// Every block is within range, non-empty, and flush with its neighbors: the
/// blocks cover `[0, rows)` in order with no gaps.
pub proof fn lemma_blocks_contiguous(rows: int, workers: int, i: int)
    requires
        1 <= workers <= rows,
        0 <= i < workers,
    ensures
        0 <= block_start(rows, workers, i) < block_end(rows, workers, i) <= rows,
        block_start(rows, workers, 0) == 0,
        block_end(rows, workers, workers - 1) == rows,
        i + 1 < workers ==> block_end(rows, workers, i) == block_start(rows, workers, i + 1),
{
    let bs = rows / workers;
    assert(workers * bs <= rows && bs >= 1) by (nonlinear_arith)
        requires
            1 <= workers <= rows,
            bs == rows / workers,
    ;
    assert(i * bs < (i + 1) * bs) by (nonlinear_arith)
        requires
            bs >= 1,
    ;
    assert((i + 1) * bs <= workers * bs) by (nonlinear_arith)
        requires
            i + 1 <= workers,
            bs >= 0,
    ;
    assert(i * bs >= 0) by (nonlinear_arith)
        requires
            i >= 0,
            bs >= 0,
    ;
    if i == workers - 1 {
        assert(i * bs <= (workers - 1) * bs) by (nonlinear_arith)
            requires
                i <= workers - 1,
                bs >= 0,
        ;
        assert((workers - 1) * bs == workers * bs - bs) by (nonlinear_arith);
    }
}

/// Partitioning: every row index in `[0, rows)` falls inside exactly one
/// worker's block.
pub proof fn lemma_partition(rows: int, workers: int, r: int)
    requires
        1 <= workers <= rows,
        0 <= r < rows,
    ensures
        exists|i: int|
            0 <= i < workers && #[trigger] block_start(rows, workers, i) <= r < block_end(
                rows,
                workers,
                i,
            ),
        forall|i: int, j: int|
            (0 <= i < workers && #[trigger] block_start(rows, workers, i) <= r < block_end(
                rows,
                workers,
                i,
            ) && 0 <= j < workers && #[trigger] block_start(rows, workers, j) <= r < block_end(
                rows,
                workers,
                j,
            )) ==> i == j,
{
    let bs = rows / workers;
    assert(workers * bs <= rows && bs >= 1) by (nonlinear_arith)
        requires
            1 <= workers <= rows,
            bs == rows / workers,
    ;
    let k = r / bs;
    assert(r == bs * k + r % bs && 0 <= r % bs < bs && k >= 0) by (nonlinear_arith)
        requires
            bs >= 1,
            0 <= r,
            k == r / bs,
    ;
    if k >= workers - 1 {
        let w = workers - 1;
        assert(w * bs <= k * bs) by (nonlinear_arith)
            requires
                w <= k,
                bs >= 0,
        ;
        assert(bs * k == k * bs) by (nonlinear_arith);
        assert(block_start(rows, workers, w) <= r < block_end(rows, workers, w));
    } else {
        assert(bs * k == k * bs) by (nonlinear_arith);
        assert((k + 1) * bs == bs * k + bs) by (nonlinear_arith);
        assert(block_start(rows, workers, k) <= r < block_end(rows, workers, k));
    }
    assert forall|i: int, j: int|
        (0 <= i < workers && #[trigger] block_start(rows, workers, i) <= r < block_end(
            rows,
            workers,
            i,
        ) && 0 <= j < workers && #[trigger] block_start(rows, workers, j) <= r < block_end(
            rows,
            workers,
            j,
        )) implies i == j by {
        if i < j {
            lemma_blocks_ordered(rows, workers, i, j);
        } else if j < i {
            lemma_blocks_ordered(rows, workers, j, i);
        }
    }
}

proof fn lemma_blocks_ordered(rows: int, workers: int, i: int, j: int)
    requires
        1 <= workers <= rows,
        0 <= i < j < workers,
    ensures
        block_end(rows, workers, i) <= block_start(rows, workers, j),
{
    let bs = rows / workers;
    assert(bs >= 1) by (nonlinear_arith)
        requires
            1 <= workers <= rows,
            bs == rows / workers,
    ;
    assert((i + 1) * bs <= j * bs) by (nonlinear_arith)
        requires
            i + 1 <= j,
            bs >= 0,
    ;
}

} // verus!
