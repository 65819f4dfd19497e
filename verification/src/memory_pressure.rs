//! The level that a system memory-pressure notification reports.
use vstd::prelude::*;

use crate::memory_monitor::MemoryPressureLevel;

verus! {

/// The flag of a notification that reports normal pressure.
pub const PRESSURE_FLAG_NORMAL: u64 = 1;

/// The flag of a notification that reports warning pressure.
pub const PRESSURE_FLAG_WARNING: u64 = 2;

/// The flag of a notification that reports critical pressure.
pub const PRESSURE_FLAG_CRITICAL: u64 = 4;

/// The level for a notification's flags: the most severe flag set wins, and a
/// notification with neither the warning nor the critical flag is normal.
pub open spec fn level_from_flags(data: u64) -> MemoryPressureLevel {
    if data & PRESSURE_FLAG_CRITICAL != 0 {
        MemoryPressureLevel::Critical
    } else if data & PRESSURE_FLAG_WARNING != 0 {
        MemoryPressureLevel::Warning
    } else {
        MemoryPressureLevel::Normal
    }
}

pub fn pressure_level(data: u64) -> (r: MemoryPressureLevel)
    ensures
        r == level_from_flags(data),
{
    if data & PRESSURE_FLAG_CRITICAL != 0 {
        MemoryPressureLevel::Critical
    } else if data & PRESSURE_FLAG_WARNING != 0 {
        MemoryPressureLevel::Warning
    } else {
        MemoryPressureLevel::Normal
    }
}

} // verus!
