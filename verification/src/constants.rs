//! The fixed configuration of the dashboard's signals.

use vstd::prelude::*;

verus! {

/// How many points the CPU usage window holds.
pub const CPU_SIGNAL_LEN: usize = 100;

/// How many points the memory usage window holds.
pub const MEMORY_SIGNAL_LEN: usize = 100;

/// The fixed-point scale of metric values: `10_000` stands for 100%, so a
/// value is a count of hundredths of a percent.
pub const PCT_SCALE: u64 = 10000;

} // verus!
