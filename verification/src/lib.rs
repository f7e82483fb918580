//! Olympic (outlier-trimmed mean) smoothing filter over a 2D grid of samples.
//!
//! Each output cell is the mean of its rectangular neighborhood after the
//! single highest and single lowest valid sample have been discarded. The
//! neighborhood aggregates are maintained incrementally by a sliding window
//! of per-column vertical strips, so each cell costs O(filter width) instead
//! of O(filter area).

pub mod config;
pub mod filter;
pub mod grid;
pub mod neighborhood;
pub mod output;
pub mod pipeline;
pub mod schedule;
pub mod stats;
pub mod window;
