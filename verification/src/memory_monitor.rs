//! Memory pressure classification, the monitor's settings, and the bounded event
//! history that the polling loop keeps.
use vstd::prelude::*;

use std::time::Duration;
use std::time::SystemTime;

use crate::text::{chars_of, parse_u64_range, parse_u64_spec, ranges_view, word_ranges, words};

verus! {

#[verifier::external_type_specification]
#[verifier::external_body]
pub struct ExSystemTime(SystemTime);

/// `SystemTime::clone`: `SystemTime` is `Copy`, so the clone equals the value cloned.
pub assume_specification[ <SystemTime as Clone>::clone ](t: &SystemTime) -> (r: SystemTime)
    ensures
        r == *t,
;

#[derive(Debug, Clone, Copy, PartialEq, Eq, Structural)]
pub enum MemoryPressureLevel {
    Normal,
    Warning,
    Critical,
}

#[derive(Debug, Clone, Copy)]
pub struct MemoryStats {
    pub resident_bytes: u64,
    pub virtual_bytes: u64,
}

#[derive(Debug, Clone)]
pub struct MemoryEvent {
    pub level: MemoryPressureLevel,
    pub stats: MemoryStats,
    pub timestamp: SystemTime,
}

#[derive(Debug, Clone, Copy)]
pub struct MemoryThresholds {
    pub warning_bytes: u64,
    pub critical_bytes: u64,
}

/// The level that a resident size falls into: critical at or above the critical
/// threshold, else warning at or above the warning threshold, else normal.
pub open spec fn level_for(t: MemoryThresholds, resident: u64) -> MemoryPressureLevel {
    if resident >= t.critical_bytes {
        MemoryPressureLevel::Critical
    } else if resident >= t.warning_bytes {
        MemoryPressureLevel::Warning
    } else {
        MemoryPressureLevel::Normal
    }
}

/// The severity order of the levels.
pub open spec fn severity(l: MemoryPressureLevel) -> int {
    match l {
        MemoryPressureLevel::Normal => 0,
        MemoryPressureLevel::Warning => 1,
        MemoryPressureLevel::Critical => 2,
    }
}

impl MemoryThresholds {
    pub fn evaluate(&self, stats: MemoryStats) -> (r: MemoryPressureLevel)
        ensures
            r == level_for(*self, stats.resident_bytes),
    {
        if stats.resident_bytes >= self.critical_bytes {
            MemoryPressureLevel::Critical
        } else if stats.resident_bytes >= self.warning_bytes {
            MemoryPressureLevel::Warning
        } else {
            MemoryPressureLevel::Normal
        }
    }
}

/// More resident memory never gives a lower level.
pub proof fn law_level_monotonic(t: MemoryThresholds, a: u64, b: u64)
    requires
        a <= b,
    ensures
        severity(level_for(t, a)) <= severity(level_for(t, b)),
{
}

/// With the critical threshold at or above the warning threshold, each level is
/// exactly a range of resident sizes.
pub proof fn law_level_ranges(t: MemoryThresholds, r: u64)
    requires
        t.warning_bytes <= t.critical_bytes,
    ensures
        level_for(t, r) == MemoryPressureLevel::Normal <==> r < t.warning_bytes,
        level_for(t, r) == MemoryPressureLevel::Warning <==> t.warning_bytes <= r
            < t.critical_bytes,
        level_for(t, r) == MemoryPressureLevel::Critical <==> t.critical_bytes <= r,
{
}

/// The history limit that a monitor starts with.
pub const DEFAULT_HISTORY_LIMIT: usize = 512;

/// Settings of a polling memory monitor.
pub struct MemoryMonitor {
    poll_interval: Duration,
    thresholds: MemoryThresholds,
    pid: Option<u32>,
    history_limit: usize,
}

impl MemoryMonitor {
    pub closed spec fn spec_poll_interval(&self) -> Duration {
        self.poll_interval
    }

    pub closed spec fn spec_thresholds(&self) -> MemoryThresholds {
        self.thresholds
    }

    pub closed spec fn spec_pid(&self) -> Option<u32> {
        self.pid
    }

    pub closed spec fn spec_history_limit(&self) -> usize {
        self.history_limit
    }

    /// A monitor of the current process with the default history limit.
    pub fn new(poll_interval: Duration, thresholds: MemoryThresholds) -> (r: Self)
        ensures
            r.spec_poll_interval() == poll_interval,
            r.spec_thresholds() == thresholds,
            r.spec_pid() == None::<u32>,
            r.spec_history_limit() == DEFAULT_HISTORY_LIMIT,
    {
        MemoryMonitor { poll_interval, thresholds, pid: None, history_limit: DEFAULT_HISTORY_LIMIT }
    }

    /// The same monitor, watching process `pid`.
    pub fn with_pid(self, pid: u32) -> (r: Self)
        ensures
            r.spec_pid() == Some(pid),
            r.spec_poll_interval() == self.spec_poll_interval(),
            r.spec_thresholds() == self.spec_thresholds(),
            r.spec_history_limit() == self.spec_history_limit(),
    {
        let mut m = self;
        m.pid = Some(pid);
        m
    }

    /// The same monitor, keeping at most `limit` events (at least one).
    pub fn with_history_limit(self, limit: usize) -> (r: Self)
        ensures
            r.spec_history_limit() == if limit >= 1 {
                limit
            } else {
                1
            },
            r.spec_pid() == self.spec_pid(),
            r.spec_poll_interval() == self.spec_poll_interval(),
            r.spec_thresholds() == self.spec_thresholds(),
    {
        let mut m = self;
        m.history_limit = if limit >= 1 {
            limit
        } else {
            1
        };
        m
    }

    pub fn poll_interval(&self) -> (r: Duration)
        ensures
            r == self.spec_poll_interval(),
    {
        self.poll_interval
    }

    pub fn thresholds(&self) -> (r: MemoryThresholds)
        ensures
            r == self.spec_thresholds(),
    {
        self.thresholds
    }

    pub fn pid(&self) -> (r: Option<u32>)
        ensures
            r == self.spec_pid(),
    {
        self.pid
    }

    pub fn history_limit(&self) -> (r: usize)
        ensures
            r == self.spec_history_limit(),
    {
        self.history_limit
    }

    /// One poll: the sampled statistics (zero when the sample failed) and their level.
    pub fn classify(&self, sample: Option<MemoryStats>) -> (r: (MemoryPressureLevel, MemoryStats))
        ensures
            r.1 == (match sample {
                Some(s) => s,
                None => MemoryStats { resident_bytes: 0, virtual_bytes: 0 },
            }),
            r.0 == level_for(self.spec_thresholds(), r.1.resident_bytes),
    {
        let stats = match sample {
            Some(s) => s,
            None => MemoryStats { resident_bytes: 0, virtual_bytes: 0 },
        };
        let level = self.thresholds.evaluate(stats);
        (level, stats)
    }
}

/// The history after recording `event`: the last `limit` entries of `old + [event]`.
pub open spec fn bounded_push<T>(old: Seq<T>, event: T, limit: nat) -> Seq<T> {
    let all = old.push(event);
    if all.len() > limit {
        all.subrange(all.len() - limit, all.len() as int)
    } else {
        all
    }
}

/// Records `event` in `history`, dropping the oldest entries beyond `limit`.
pub fn push_history(history: &mut Vec<MemoryEvent>, event: MemoryEvent, limit: usize)
    ensures
        final(history)@ == bounded_push(old(history)@, event, limit as nat),
{
    history.push(event);
    if history.len() > limit {
        let overflow = history.len() - limit;
        let tail = history.split_off(overflow);
        *history = tail;
    }
}

/// A history never holds more than its limit (of at least one), and its last entry
/// is the event just recorded.
pub proof fn law_history_bounded<T>(old: Seq<T>, event: T, limit: nat)
    requires
        limit >= 1,
        old.len() <= limit,
    ensures
        bounded_push(old, event, limit).len() <= limit,
        bounded_push(old, event, limit).len() >= 1,
        bounded_push(old, event, limit).last() == event,
        old.len() < limit ==> bounded_push(old, event, limit) == old.push(event),
{
}

/// The resident and virtual sizes, in KiB, that `ps -o rss= -o vsz=` prints: its
/// first two words as numbers.
pub open spec fn ps_kilobytes_spec(output: Seq<char>) -> Option<(u64, u64)> {
    let ws = words(output);
    if ws.len() < 2 {
        None
    } else {
        match (parse_u64_spec(ws[0]), parse_u64_spec(ws[1])) {
            (Some(rss), Some(vsz)) => Some((rss, vsz)),
            _ => None,
        }
    }
}

/// Reads the output of `ps -o rss= -o vsz=`.
pub fn ps_kilobytes(output: &str) -> (r: Option<(u64, u64)>)
    ensures
        r == ps_kilobytes_spec(output@),
{
    let v = chars_of(output);
    let rs = word_ranges(&v, 0, v.len());
    assert(v@.subrange(0, v@.len() as int) =~= v@);
    let ghost ws = words(output@);
    assert(ranges_view(v@, rs@) == ws);
    if rs.len() < 2 {
        return None;
    }
    let (a0, b0) = rs[0];
    let (a1, b1) = rs[1];
    assert(ws[0] == v@.subrange(a0 as int, b0 as int));
    assert(ws[1] == v@.subrange(a1 as int, b1 as int));
    let rss = match parse_u64_range(&v, a0, b0) {
        Some(n) => n,
        None => {
            return None;
        },
    };
    let vsz = match parse_u64_range(&v, a1, b1) {
        Some(n) => n,
        None => {
            return None;
        },
    };
    Some((rss, vsz))
}

/// The statistics for sizes given in KiB. Both must fit in bytes.
pub fn stats_from_kilobytes(rss_kb: u64, vsz_kb: u64) -> (r: MemoryStats)
    requires
        rss_kb * 1024 <= u64::MAX,
        vsz_kb * 1024 <= u64::MAX,
    ensures
        r.resident_bytes == rss_kb * 1024,
        r.virtual_bytes == vsz_kb * 1024,
{
    MemoryStats { resident_bytes: rss_kb * 1024, virtual_bytes: vsz_kb * 1024 }
}

} // verus!
