use std::time::{Duration, SystemTime};

use llm_manager::commands::monitor_args::parse_monitor_args;
use llm_manager::commands::monitor_plan::{
    monitor_mode, pressure_console_line, pressure_log_line, sample_log_line, MonitorMode,
};
use llm_manager::cli::{format_level, ArgError};
use llm_manager::memory_monitor::{
    ps_kilobytes, push_history, stats_from_kilobytes, MemoryEvent, MemoryMonitor,
    MemoryPressureLevel, MemoryStats, MemoryThresholds,
};
use llm_manager::memory_pressure::pressure_level;

fn args(list: &[&str]) -> Vec<String> {
    list.iter().map(|s| s.to_string()).collect()
}

fn event(level: MemoryPressureLevel, resident: u64) -> MemoryEvent {
    MemoryEvent {
        level,
        stats: MemoryStats { resident_bytes: resident, virtual_bytes: 0 },
        timestamp: SystemTime::UNIX_EPOCH,
    }
}

#[test]
fn thresholds_evaluate_levels() {
    let thresholds = MemoryThresholds {
        warning_bytes: 100,
        critical_bytes: 200,
    };
    let normal = thresholds.evaluate(MemoryStats {
        resident_bytes: 50,
        virtual_bytes: 0,
    });
    let warning = thresholds.evaluate(MemoryStats {
        resident_bytes: 150,
        virtual_bytes: 0,
    });
    let critical = thresholds.evaluate(MemoryStats {
        resident_bytes: 250,
        virtual_bytes: 0,
    });

    assert!(matches!(normal, MemoryPressureLevel::Normal));
    assert!(matches!(warning, MemoryPressureLevel::Warning));
    assert!(matches!(critical, MemoryPressureLevel::Critical));
}

#[test]
fn thresholds_are_inclusive_and_monotonic() {
    let t = MemoryThresholds { warning_bytes: 100, critical_bytes: 200 };
    let level = |r: u64| t.evaluate(MemoryStats { resident_bytes: r, virtual_bytes: u64::MAX });
    assert_eq!(level(99), MemoryPressureLevel::Normal);
    assert_eq!(level(100), MemoryPressureLevel::Warning);
    assert_eq!(level(199), MemoryPressureLevel::Warning);
    assert_eq!(level(200), MemoryPressureLevel::Critical);
    assert_eq!(level(u64::MAX), MemoryPressureLevel::Critical);
}

#[test]
fn history_keeps_the_latest_events() {
    let mut history = Vec::new();
    for r in 0..5u64 {
        push_history(&mut history, event(MemoryPressureLevel::Normal, r), 3);
        assert!(history.len() <= 3);
    }
    let kept: Vec<u64> = history.iter().map(|e| e.stats.resident_bytes).collect();
    assert_eq!(kept, vec![2, 3, 4]);
}

#[test]
fn monitor_settings_and_classification() {
    let t = MemoryThresholds { warning_bytes: 10, critical_bytes: 20 };
    let m = MemoryMonitor::new(Duration::from_millis(250), t);
    assert_eq!(m.pid(), None);
    assert_eq!(m.history_limit(), 512);
    let m = m.with_pid(42).with_history_limit(0);
    assert_eq!(m.pid(), Some(42));
    assert_eq!(m.history_limit(), 1);
    assert_eq!(m.poll_interval(), Duration::from_millis(250));
    let (level, stats) = m.classify(None);
    assert_eq!(level, MemoryPressureLevel::Normal);
    assert_eq!(stats.resident_bytes, 0);
    let (level, _) = m.classify(Some(MemoryStats { resident_bytes: 15, virtual_bytes: 1 }));
    assert_eq!(level, MemoryPressureLevel::Warning);
}

#[test]
fn ps_output_is_read_in_kilobytes() {
    assert_eq!(ps_kilobytes("  1024  2048\n"), Some((1024, 2048)));
    assert_eq!(ps_kilobytes("1024"), None);
    assert_eq!(ps_kilobytes("x 2048"), None);
    let stats = stats_from_kilobytes(1024, 2048);
    assert_eq!(stats.resident_bytes, 1024 * 1024);
    assert_eq!(stats.virtual_bytes, 2048 * 1024);
}

#[test]
fn pressure_flags_pick_most_severe_level() {
    assert_eq!(pressure_level(1), MemoryPressureLevel::Normal);
    assert_eq!(pressure_level(2), MemoryPressureLevel::Warning);
    assert_eq!(pressure_level(4), MemoryPressureLevel::Critical);
    assert_eq!(pressure_level(6), MemoryPressureLevel::Critical);
    assert_eq!(pressure_level(0), MemoryPressureLevel::Normal);
}

#[test]
fn monitor_modes_and_threshold_checks() {
    let a = match parse_monitor_args(&args(&["--pressure-events", "--pid", "7"])) {
        Ok(a) => a,
        Err(_) => panic!("arguments refused"),
    };
    assert_eq!(
        monitor_mode(&a).err(),
        Some("--pressure-events does not support --pid".to_string())
    );
    let a = match parse_monitor_args(&args(&["--warning", "2gb", "--critical", "1gb"])) {
        Ok(a) => a,
        Err(_) => panic!("arguments refused"),
    };
    assert_eq!(
        monitor_mode(&a).err(),
        Some("Critical threshold must be >= warning threshold".to_string())
    );
    let a = match parse_monitor_args(&args(&[])) {
        Ok(a) => a,
        Err(_) => panic!("arguments refused"),
    };
    match monitor_mode(&a) {
        Ok(MonitorMode::Sampling(t)) => {
            assert_eq!(t.warning_bytes, 512 * 1024 * 1024);
            assert_eq!(t.critical_bytes, 1024 * 1024 * 1024);
        }
        _ => panic!("expected sampling"),
    }
}

#[test]
fn monitor_flag_errors() {
    match parse_monitor_args(&args(&["--interval-ms", "0"])) {
        Err(ArgError::Message(m)) => assert_eq!(m, "--interval-ms must be > 0"),
        _ => panic!("expected an error"),
    }
    match parse_monitor_args(&args(&["--warning", "0mb"])) {
        Err(ArgError::Message(m)) => assert_eq!(m, "--warning must be > 0"),
        _ => panic!("expected an error"),
    }
    match parse_monitor_args(&args(&["--critical", "1pb"])) {
        Err(ArgError::Message(m)) => {
            assert_eq!(m, "Unknown unit for --critical: pb (use b, kb, mb, gb, tb)")
        }
        _ => panic!("expected an error"),
    }
    match parse_monitor_args(&args(&["--pid", "abc"])) {
        Err(ArgError::Message(m)) => assert_eq!(m, "Invalid numeric value for --pid: abc"),
        _ => panic!("expected an error"),
    }
    match parse_monitor_args(&args(&["--x"])) {
        Err(ArgError::Message(m)) => {
            assert_eq!(m, "Unknown flag for monitor: --x. Use --help for options.")
        }
        _ => panic!("expected an error"),
    }
}

#[test]
fn monitor_lines() {
    assert_eq!(format_level(MemoryPressureLevel::Warning), "warning");
    assert_eq!(
        pressure_console_line(17, MemoryPressureLevel::Critical),
        "[17] memory-pressure critical"
    );
    assert_eq!(pressure_log_line(17, MemoryPressureLevel::Normal), "17 pressure=normal");
    assert_eq!(
        sample_log_line(5, MemoryPressureLevel::Warning, MemoryStats { resident_bytes: 10, virtual_bytes: 20 }),
        "5 warning rss=10 vsz=20"
    );
}
