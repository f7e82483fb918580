use olympic_filter::config::{normalize_width, FilterConfig};
use olympic_filter::filter::Cell;
use olympic_filter::grid::Grid;
use olympic_filter::output::{progress_percent, OutputGrid};
use olympic_filter::pipeline::filter_grid;
use olympic_filter::schedule::{row_blocks, worker_count};

#[test]
fn even_widths_round_up_to_next_odd() {
    assert_eq!(normalize_width(10), 11);
    assert_eq!(normalize_width(4), 5);
    assert_eq!(normalize_width(11), 11);
}

#[test]
fn small_widths_are_raised_to_three() {
    assert_eq!(normalize_width(0), 3);
    assert_eq!(normalize_width(1), 3);
    assert_eq!(normalize_width(2), 3);
    assert_eq!(normalize_width(3), 3);
}

#[test]
fn config_normalizes_each_axis_independently() {
    let cfg = FilterConfig::new(10, 2);
    assert_eq!(cfg.width_x, 11);
    assert_eq!(cfg.width_y, 3);
    assert_eq!(cfg.half_x, 5);
    assert_eq!(cfg.half_y, 1);
}

#[test]
fn row_blocks_partition_every_row_once() {
    let blocks = row_blocks(10, 4);
    assert_eq!(blocks.len(), 4);
    assert_eq!(blocks[0], (0, 2));
    assert_eq!(blocks[1], (2, 4));
    assert_eq!(blocks[2], (4, 6));
    assert_eq!(blocks[3], (6, 10));
    for r in 0..10usize {
        let owners = blocks.iter().filter(|&&(s, e)| s <= r && r < e).count();
        assert_eq!(owners, 1);
    }
}

#[test]
fn row_blocks_single_worker_takes_all() {
    let blocks = row_blocks(7, 1);
    assert_eq!(blocks, vec![(0, 7)]);
}

#[test]
fn worker_count_is_capped_at_rows_and_at_least_one() {
    assert_eq!(worker_count(0, 5), 1);
    assert_eq!(worker_count(3, 5), 3);
    assert_eq!(worker_count(8, 5), 5);
    assert_eq!(worker_count(5, 5), 5);
}

#[test]
fn collector_accepts_rows_in_any_order() {
    let mut out = OutputGrid::new(3, 2);
    assert!(!out.is_complete());
    out.set_row(2, vec![Cell::Value { num: 5, den: 1 }, Cell::NoData]);
    out.set_row(0, vec![Cell::NoData, Cell::Value { num: 7, den: 2 }]);
    assert!(!out.is_complete());
    out.set_row(1, vec![Cell::Value { num: 1, den: 1 }, Cell::Value { num: 2, den: 1 }]);
    assert!(out.is_complete());
    assert_eq!(out.received, 3);
    assert_eq!(out.cells[0], Cell::NoData);
    assert_eq!(out.cells[1], Cell::Value { num: 7, den: 2 });
    assert_eq!(out.cells[2], Cell::Value { num: 1, den: 1 });
    assert_eq!(out.cells[4], Cell::Value { num: 5, den: 1 });
    assert_eq!(out.cells[5], Cell::NoData);
}

#[test]
fn progress_is_a_monotone_percentage() {
    assert_eq!(progress_percent(0, 10), 0);
    assert_eq!(progress_percent(5, 10), 50);
    assert_eq!(progress_percent(10, 10), 100);
    let mut last = 0;
    for received in 0..=37usize {
        let p = progress_percent(received, 37);
        assert!(p >= last);
        assert!(p <= 100);
        last = p;
    }
    assert_eq!(last, 100);
}

#[test]
fn even_width_filters_like_the_next_odd_width() {
    let data: Vec<i64> = (1..=30).collect();
    let g = Grid::new(5, 6, -999, data);
    let even = FilterConfig::new(2, 4);
    let odd = FilterConfig::new(3, 5);
    let out_even = olympic_filter::pipeline::filter_grid_with_workers(&g, &even, 2);
    let out_odd = olympic_filter::pipeline::filter_grid_with_workers(&g, &odd, 2);
    assert_eq!(out_even.cells, out_odd.cells);
}

#[test]
fn default_worker_run_filters_the_grid() {
    // Uses the detected hardware parallelism, whatever it is; the result must
    // not depend on the worker count.
    let data: Vec<i64> = (1..=25).collect();
    let g = Grid::new(5, 5, -999, data);
    let cfg = FilterConfig::new(3, 3);
    let out = filter_grid(&g, &cfg);
    assert!(out.is_complete());
    assert_eq!(out.rows, 5);
    assert_eq!(out.columns, 5);
    assert_eq!(out.cells[2 * 5 + 2], Cell::Value { num: 91, den: 7 });
}
