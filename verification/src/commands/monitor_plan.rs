//! The `monitor` command's decisions: which source of events it watches, its
//! thresholds, and the lines it prints and logs.
use vstd::prelude::*;

use crate::cli::{format_level, level_name};
use crate::commands::monitor_args::MonitorArgs;
use crate::commands::run_plan::{DEFAULT_CRITICAL_BYTES, DEFAULT_WARNING_BYTES};
use crate::memory_monitor::{MemoryPressureLevel, MemoryStats, MemoryThresholds};
use crate::text::{decimal, push_decimal};

verus! {

/// What `monitor` watches.
pub enum MonitorMode {
    /// The system's memory-pressure notifications.
    PressureEvents,
    /// Samples of memory use, classified by the thresholds.
    Sampling(MemoryThresholds),
}

/// The mode for the arguments: pressure events cannot be watched for one process;
/// sampling uses the given thresholds (512 MiB and 1 GiB by default), of which the
/// critical one may not be below the warning one.
pub fn monitor_mode(args: &MonitorArgs) -> (r: Result<MonitorMode, String>)
    ensures
        args.pressure_events && args.pid is Some ==> (r matches Err(e) && e@
            == "--pressure-events does not support --pid"@),
        args.pressure_events && args.pid is None ==> r matches Ok(MonitorMode::PressureEvents),
        !args.pressure_events ==> ({
            let w = match args.warning {
                Some(w) => w,
                None => DEFAULT_WARNING_BYTES,
            };
            let c = match args.critical {
                Some(c) => c,
                None => DEFAULT_CRITICAL_BYTES,
            };
            if c < w {
                r matches Err(e) && e@ == "Critical threshold must be >= warning threshold"@
            } else {
                r matches Ok(MonitorMode::Sampling(t)) && t.warning_bytes == w && t.critical_bytes
                    == c
            }
        }),
{
    if args.pressure_events {
        if args.pid.is_some() {
            return Err(String::from_str("--pressure-events does not support --pid"));
        }
        return Ok(MonitorMode::PressureEvents);
    }
    let w = match args.warning {
        Some(w) => w,
        None => DEFAULT_WARNING_BYTES,
    };
    let c = match args.critical {
        Some(c) => c,
        None => DEFAULT_CRITICAL_BYTES,
    };
    if c < w {
        return Err(String::from_str("Critical threshold must be >= warning threshold"));
    }
    Ok(MonitorMode::Sampling(MemoryThresholds { warning_bytes: w, critical_bytes: c }))
}

/// `[<timestamp>] memory-pressure <level>`: a pressure notification on the console.
pub fn pressure_console_line(timestamp: u64, level: MemoryPressureLevel) -> (r: String)
    ensures
        r@ == "["@ + decimal(timestamp as nat) + "] memory-pressure "@ + level_name(level),
{
    let mut s = String::from_str("[");
    push_decimal(&mut s, timestamp);
    s.append("] memory-pressure ");
    s.append(format_level(level));
    s
}

/// `<timestamp> pressure=<level>`: a pressure notification in the log file.
pub fn pressure_log_line(timestamp: u64, level: MemoryPressureLevel) -> (r: String)
    ensures
        r@ == decimal(timestamp as nat) + " pressure="@ + level_name(level),
{
    let mut s = String::new();
    push_decimal(&mut s, timestamp);
    s.append(" pressure=");
    s.append(format_level(level));
    s
}

/// `<timestamp> <level> rss=<bytes> vsz=<bytes>`: a sample in the log file.
pub fn sample_log_line(timestamp: u64, level: MemoryPressureLevel, stats: MemoryStats) -> (r: String)
    ensures
        r@ == decimal(timestamp as nat) + " "@ + level_name(level) + " rss="@ + decimal(
            stats.resident_bytes as nat,
        ) + " vsz="@ + decimal(stats.virtual_bytes as nat),
{
    let mut s = String::new();
    push_decimal(&mut s, timestamp);
    s.append(" ");
    s.append(format_level(level));
    s.append(" rss=");
    push_decimal(&mut s, stats.resident_bytes);
    s.append(" vsz=");
    push_decimal(&mut s, stats.virtual_bytes);
    s
}

} // verus!
