//! Filter kernel dimensions. Widths are normalized so the kernel always has
//! an odd width of at least 3 along each axis, which guarantees a
//! well-defined center cell.

use vstd::prelude::*;

verus! {

/// Largest accepted filter width along either axis. Keeps the window area,
/// and with it every valid-sample count, inside 32 bits.
pub const MAX_WIDTH: usize = 0xFFFF;

/// A filter width as used by the kernel: odd, at least 3.
pub open spec fn normalized_width(w: int) -> int {
    if w < 3 {
        3
    } else if w % 2 == 0 {
        w + 1
    } else {
        w
    }
}

/// Normalizes a requested filter width: widths below 3 are raised to 3, and
/// even widths are then rounded up to the next odd integer.
pub fn normalize_width(w: usize) -> (r: usize)
    requires
        w <= MAX_WIDTH,
    ensures
        r == normalized_width(w as int),
        r % 2 == 1,
        3 <= r <= MAX_WIDTH,
    {
    if w < 3 {
        3
    } else if w % 2 == 0 {
        w + 1
    } else {
        w
    }
}

#[derive(Clone, Copy)]
pub struct FilterConfig {
    pub width_x: usize,
    pub width_y: usize,
    pub half_x: usize,
    pub half_y: usize,
}

impl FilterConfig {
    pub open spec fn wf(self) -> bool {
        &&& 3 <= self.width_x <= MAX_WIDTH
        &&& 3 <= self.width_y <= MAX_WIDTH
        &&& self.width_x % 2 == 1
        &&& self.width_y % 2 == 1
        &&& self.half_x == self.width_x / 2
        &&& self.half_y == self.width_y / 2
    }

    /// Builds a configuration from requested kernel widths, normalizing each
    /// axis independently.
    pub fn new(width_x: usize, width_y: usize) -> (cfg: FilterConfig)
        requires
            width_x <= MAX_WIDTH,
            width_y <= MAX_WIDTH,
        ensures
            cfg.wf(),
            cfg.width_x == normalized_width(width_x as int),
            cfg.width_y == normalized_width(width_y as int),
    {
        let wx = normalize_width(width_x);
        let wy = normalize_width(width_y);
        FilterConfig { width_x: wx, width_y: wy, half_x: wx / 2, half_y: wy / 2 }
    }
}

} // verus!
