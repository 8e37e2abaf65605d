//! The figures of the machine that the server runs on.
//!
//! Load averages are held in thousandths, disk usage in thousandths of a
//! percent.

use vstd::prelude::*;

verus! {

/// Memory, load and disk usage of the machine.
#[derive(Debug, Clone, Copy, PartialEq, Eq, Structural)]
pub struct Stats {
    /// Free memory in bytes.
    pub free_mem: usize,
    /// Load average over one minute, in thousandths.
    pub load_avg_1m: i64,
    /// Load average over five minutes, in thousandths.
    pub load_avg_5m: i64,
    /// Load average over fifteen minutes, in thousandths.
    pub load_avg_15m: i64,
    /// Usage of the drive, in thousandths of a percent.
    pub disk_usage: i64,
}

} // verus!
