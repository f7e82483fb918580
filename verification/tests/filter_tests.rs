use olympic_filter::config::FilterConfig;
use olympic_filter::filter::{filter_row, Cell};
use olympic_filter::grid::Grid;
use olympic_filter::pipeline::filter_grid_with_workers;
use olympic_filter::window::WindowTracker;

fn lookup(rows: usize, cols: usize, no_data: i64, data: &Vec<i64>, r: i64, c: i64) -> i64 {
    if r >= 0 && c >= 0 && (r as usize) < rows && (c as usize) < cols {
        data[r as usize * cols + c as usize]
    } else {
        no_data
    }
}

fn window_values(
    rows: usize,
    cols: usize,
    no_data: i64,
    data: &Vec<i64>,
    r: i64,
    c: i64,
    hx: i64,
    hy: i64,
) -> Vec<i64> {
    let mut vals: Vec<i64> = Vec::new();
    let mut cc = c - hx;
    while cc <= c + hx {
        let mut rr = r - hy;
        while rr <= r + hy {
            let z = lookup(rows, cols, no_data, data, rr, cc);
            if z != no_data {
                vals.push(z);
            }
            rr += 1;
        }
        cc += 1;
    }
    vals
}

fn brute_force_cell(
    rows: usize,
    cols: usize,
    no_data: i64,
    data: &Vec<i64>,
    r: i64,
    c: i64,
    hx: i64,
    hy: i64,
) -> Cell {
    if lookup(rows, cols, no_data, data, r, c) == no_data {
        return Cell::NoData;
    }
    let vals = window_values(rows, cols, no_data, data, r, c, hx, hy);
    let n = vals.len();
    if n == 0 {
        return Cell::NoData;
    }
    let sum: i128 = vals.iter().map(|&v| v as i128).sum();
    let mn = *vals.iter().min().unwrap() as i128;
    let mx = *vals.iter().max().unwrap() as i128;
    if n > 2 {
        Cell::Value { num: sum - mx - mn, den: (n - 2) as u64 }
    } else {
        Cell::Value { num: sum, den: n as u64 }
    }
}

fn pseudo_random_grid(rows: usize, cols: usize, no_data: i64, seed: u64) -> Vec<i64> {
    let mut state = seed;
    let mut data: Vec<i64> = Vec::new();
    for _ in 0..rows * cols {
        state = state
            .wrapping_mul(6364136223846793005)
            .wrapping_add(1442695040888963407);
        let v = (state >> 33) % 1000;
        if v % 17 == 0 {
            data.push(no_data);
        } else {
            data.push(v as i64 - 500);
        }
    }
    data
}

#[test]
fn output_dimensions_match_input() {
    let data: Vec<i64> = (1..=35).collect();
    let g = Grid::new(5, 7, -999, data);
    let cfg = FilterConfig::new(3, 3);
    let out = filter_grid_with_workers(&g, &cfg, 2);
    assert_eq!(out.rows, 5);
    assert_eq!(out.columns, 7);
    assert_eq!(out.cells.len(), 35);
    assert!(out.is_complete());
}

#[test]
fn center_trimmed_mean_five_by_five() {
    // 5x5 grid of 1..25 row-major, 3x3 filter: the window of the center cell
    // holds 7 8 9 12 13 14 17 18 19; sum 117, max 19, min 7, count 9, so the
    // trimmed mean is (117 - 19 - 7) / (9 - 2) = 91 / 7 = 13.
    let data: Vec<i64> = (1..=25).collect();
    let g = Grid::new(5, 5, -999, data);
    let cfg = FilterConfig::new(3, 3);
    let out = filter_grid_with_workers(&g, &cfg, 1);
    let center = out.cells[2 * 5 + 2];
    assert_eq!(center, Cell::Value { num: 91, den: 7 });
    match center {
        Cell::Value { num, den } => assert_eq!(num / den as i128, 13),
        Cell::NoData => panic!("center must hold a value"),
    }
}

#[test]
fn no_data_center_gates_output_only_there() {
    // One no-data cell: only the cell whose own center is no-data becomes
    // no-data; its neighbors merely lose that sample from their aggregates.
    let mut data: Vec<i64> = (1..=25).collect();
    data[2 * 5 + 2] = -999;
    let g = Grid::new(5, 5, -999, data.clone());
    let cfg = FilterConfig::new(3, 3);
    let out = filter_grid_with_workers(&g, &cfg, 3);
    for r in 0..5i64 {
        for c in 0..5i64 {
            let cell = out.cells[r as usize * 5 + c as usize];
            if r == 2 && c == 2 {
                assert_eq!(cell, Cell::NoData);
            } else {
                assert_ne!(cell, Cell::NoData);
                assert_eq!(cell, brute_force_cell(5, 5, -999, &data, r, c, 1, 1));
            }
        }
    }
    // The neighbor at (1, 1) sees 8 valid samples: 1 2 3 6 7 8 11 12.
    let neighbor = out.cells[5 + 1];
    assert_eq!(neighbor, Cell::Value { num: 50 - 12 - 1, den: 6 });
}

#[test]
fn plain_mean_for_one_valid_sample() {
    let g = Grid::new(1, 1, -1, vec![42]);
    let cfg = FilterConfig::new(3, 3);
    let out = filter_grid_with_workers(&g, &cfg, 1);
    assert_eq!(out.cells[0], Cell::Value { num: 42, den: 1 });
}

#[test]
fn plain_mean_for_two_valid_samples() {
    let g = Grid::new(1, 2, -1, vec![10, 20]);
    let cfg = FilterConfig::new(3, 3);
    let out = filter_grid_with_workers(&g, &cfg, 1);
    assert_eq!(out.cells[0], Cell::Value { num: 30, den: 2 });
    assert_eq!(out.cells[1], Cell::Value { num: 30, den: 2 });
}

#[test]
fn filtered_rows_match_brute_force_random_grid() {
    let no_data = i64::MIN;
    let data = pseudo_random_grid(9, 11, no_data, 7);
    let g = Grid::new(9, 11, no_data, data.clone());
    let cfg = FilterConfig::new(5, 3);
    let out = filter_grid_with_workers(&g, &cfg, 4);
    for r in 0..9i64 {
        for c in 0..11i64 {
            let expect = brute_force_cell(9, 11, no_data, &data, r, c, 2, 1);
            assert_eq!(out.cells[r as usize * 11 + c as usize], expect);
        }
    }
}

#[test]
fn tracker_matches_brute_force_at_every_column() {
    // The incremental sliding-window aggregate must equal the aggregate of a
    // from-scratch scan of the exact same window, at every column.
    let no_data = -7;
    let data = pseudo_random_grid(6, 13, no_data, 99);
    let g = Grid::new(6, 13, no_data, data.clone());
    let cfg = FilterConfig::new(3, 5);
    for row in 0..6i64 {
        let mut tracker = WindowTracker::new(&g, &cfg, row);
        for col in 0..13i64 {
            let agg = tracker.combined(&g);
            let vals = window_values(6, 13, no_data, &data, row, col, 1, 2);
            assert_eq!(agg.count, vals.len());
            let sum: i128 = vals.iter().map(|&v| v as i128).sum();
            assert_eq!(agg.sum, sum);
            if !vals.is_empty() {
                assert_eq!(agg.min, *vals.iter().min().unwrap());
                assert_eq!(agg.max, *vals.iter().max().unwrap());
            }
            if col + 1 < 13 {
                tracker.advance(&g);
            }
        }
    }
}

#[test]
fn filter_row_alone_matches_brute_force() {
    let no_data = -999;
    let data = pseudo_random_grid(4, 6, no_data, 3);
    let g = Grid::new(4, 6, no_data, data.clone());
    let cfg = FilterConfig::new(3, 3);
    let row = filter_row(&g, &cfg, 1);
    assert_eq!(row.len(), 6);
    for c in 0..6i64 {
        assert_eq!(row[c as usize], brute_force_cell(4, 6, no_data, &data, 1, c, 1, 1));
    }
}

#[test]
fn all_no_data_grid_stays_no_data() {
    let g = Grid::new(3, 3, 0, vec![0; 9]);
    let cfg = FilterConfig::new(3, 3);
    let out = filter_grid_with_workers(&g, &cfg, 1);
    for i in 0..9 {
        assert_eq!(out.cells[i], Cell::NoData);
    }
}
