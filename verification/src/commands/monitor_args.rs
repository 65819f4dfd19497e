//! Arguments of the `monitor` command.
use vstd::prelude::*;


use crate::cli::{
    has_help_flag, missing_value, next_value, nonzero_bytes_flag, nonzero_u64_flag,
    parse_nonzero_bytes, parse_nonzero_u64, parse_u32, starts_with_dash, u32_flag, view_matches,
    wants_help, ArgError, Parsed,
};
use crate::llm_backend::{opt_str_view, strs_view};
use crate::text::str_eq;


verus! {

pub struct MonitorArgs {
    /// `--help` or `-h` was given: nothing else is read.
    pub help: bool,
    pub pid: Option<u32>,
    pub interval_ms: u64,
    pub warning: Option<u64>,
    pub critical: Option<u64>,
    pub log_file: Option<String>,
    pub pressure_events: bool,
}

pub ghost struct MonitorArgsView {
    pub help: bool,
    pub pid: Option<u32>,
    pub interval_ms: u64,
    pub warning: Option<u64>,
    pub critical: Option<u64>,
    pub log_file: Option<Seq<char>>,
    pub pressure_events: bool,
}

impl View for MonitorArgs {
    type V = MonitorArgsView;

    open spec fn view(&self) -> MonitorArgsView {
        MonitorArgsView {
            help: self.help,
            pid: self.pid,
            interval_ms: self.interval_ms,
            warning: self.warning,
            critical: self.critical,
            log_file: opt_str_view(self.log_file),
            pressure_events: self.pressure_events,
        }
    }
}

/// The options before any argument is read.
pub open spec fn monitor_args_initial() -> MonitorArgsView {
    MonitorArgsView {
        help: false,
        pid: None,
        interval_ms: 1000,
        warning: None,
        critical: None,
        log_file: None,
        pressure_events: false,
    }
}

/// The options that `args[i..]` give, starting from `st`.
pub open spec fn monitor_args_from(args: Seq<Seq<char>>, i: int, st: MonitorArgsView) -> Parsed<MonitorArgsView>
    decreases args.len() - i,
{
    if i < 0 || i >= args.len() {
        Parsed::Value(st)
    } else {
        let a = args[i];
        if a == "--pid"@ {
            if i + 1 < args.len() {
                match u32_flag("--pid"@, args[i + 1]) {
                    Parsed::Value(n) => monitor_args_from(args, i + 2, MonitorArgsView { pid: Some(n), ..st }),
                    Parsed::Invalid(m) => Parsed::Invalid(m),
                    Parsed::Overflow => Parsed::Overflow,
                }
            } else {
                Parsed::Invalid(missing_value("--pid"@))
            }
        } else if a == "--interval-ms"@ {
            if i + 1 < args.len() {
                match nonzero_u64_flag("--interval-ms"@, args[i + 1]) {
                    Parsed::Value(n) => monitor_args_from(args, i + 2, MonitorArgsView { interval_ms: n, ..st }),
                    Parsed::Invalid(m) => Parsed::Invalid(m),
                    Parsed::Overflow => Parsed::Overflow,
                }
            } else {
                Parsed::Invalid(missing_value("--interval-ms"@))
            }
        } else if a == "--warning"@ {
            if i + 1 < args.len() {
                match nonzero_bytes_flag("--warning"@, args[i + 1], true) {
                    Parsed::Value(n) => monitor_args_from(args, i + 2, MonitorArgsView { warning: Some(n), ..st }),
                    Parsed::Invalid(m) => Parsed::Invalid(m),
                    Parsed::Overflow => Parsed::Overflow,
                }
            } else {
                Parsed::Invalid(missing_value("--warning"@))
            }
        } else if a == "--critical"@ {
            if i + 1 < args.len() {
                match nonzero_bytes_flag("--critical"@, args[i + 1], true) {
                    Parsed::Value(n) => monitor_args_from(args, i + 2, MonitorArgsView { critical: Some(n), ..st }),
                    Parsed::Invalid(m) => Parsed::Invalid(m),
                    Parsed::Overflow => Parsed::Overflow,
                }
            } else {
                Parsed::Invalid(missing_value("--critical"@))
            }
        } else if a == "--log-file"@ {
            if i + 1 < args.len() {
                monitor_args_from(args, i + 2, MonitorArgsView { log_file: Some(args[i + 1]), ..st })
            } else {
                Parsed::Invalid(missing_value("--log-file"@))
            }
        } else if a == "--pressure-events"@ {
            monitor_args_from(args, i + 1, MonitorArgsView { pressure_events: true, ..st })
        } else if a.len() > 0 && a[0] == '-' {
            Parsed::Invalid("Unknown flag for monitor: "@ + a + ". Use --help for options."@)
        } else {
            monitor_args_from(args, i + 1, st)
        }
    }
}

/// The options that the arguments give: with `--help` or `-h` anywhere, only
/// `help`; otherwise read from left to right.
pub open spec fn monitor_args(args: Seq<Seq<char>>) -> Parsed<MonitorArgsView> {
    if wants_help(args) {
        Parsed::Value(MonitorArgsView { help: true, ..monitor_args_initial() })
    } else {
        monitor_args_from(args, 0, monitor_args_initial())
    }
}

fn parse_monitor_args_initial() -> (r: MonitorArgs)
    ensures
        r@ == monitor_args_initial(),
{
    let r = MonitorArgs {
        help: false,
        pid: None,
        interval_ms: 1000,
        warning: None,
        critical: None,
        log_file: None,
        pressure_events: false,
    };
    r
}

#[verifier::rlimit(40)]
fn parse_monitor_args_step(args: &Vec<String>, i: usize, st: &mut MonitorArgs) -> (r: Result<usize, ArgError>)
    requires
        i < args@.len(),
    ensures
        match r {
            Ok(j) => i < j <= args@.len() && monitor_args_from(strs_view(args@), i as int, old(st)@) == monitor_args_from(strs_view(args@), j as int, final(st)@),
            Err(e) => view_matches(Err::<MonitorArgs, ArgError>(e), monitor_args_from(strs_view(args@), i as int, old(st)@)),
        },
{
    let ghost av = strs_view(args@);
    let _n = args.len();
    let a = args[i].as_str();
    assert(av[i as int] == a@);
    if str_eq(a, "--pid") {
        let v = match next_value("--pid", args, i + 1) {
            Ok(v) => v,
            Err(e) => {
                return Err(e);
            },
        };
        assert(av[i + 1] == v@);
        let n = match parse_u32("--pid", v.as_str()) {
            Ok(n) => n,
            Err(e) => {
                return Err(e);
            },
        };
        st.pid = Some(n);
        Ok(i + 2)
    } else if str_eq(a, "--interval-ms") {
        let v = match next_value("--interval-ms", args, i + 1) {
            Ok(v) => v,
            Err(e) => {
                return Err(e);
            },
        };
        assert(av[i + 1] == v@);
        let n = match parse_nonzero_u64("--interval-ms", v.as_str()) {
            Ok(n) => n,
            Err(e) => {
                return Err(e);
            },
        };
        st.interval_ms = n;
        Ok(i + 2)
    } else if str_eq(a, "--warning") {
        let v = match next_value("--warning", args, i + 1) {
            Ok(v) => v,
            Err(e) => {
                return Err(e);
            },
        };
        assert(av[i + 1] == v@);
        let n = match parse_nonzero_bytes("--warning", v.as_str(), true) {
            Ok(n) => n,
            Err(e) => {
                return Err(e);
            },
        };
        st.warning = Some(n);
        Ok(i + 2)
    } else if str_eq(a, "--critical") {
        let v = match next_value("--critical", args, i + 1) {
            Ok(v) => v,
            Err(e) => {
                return Err(e);
            },
        };
        assert(av[i + 1] == v@);
        let n = match parse_nonzero_bytes("--critical", v.as_str(), true) {
            Ok(n) => n,
            Err(e) => {
                return Err(e);
            },
        };
        st.critical = Some(n);
        Ok(i + 2)
    } else if str_eq(a, "--log-file") {
        let v = match next_value("--log-file", args, i + 1) {
            Ok(v) => v,
            Err(e) => {
                return Err(e);
            },
        };
        assert(av[i + 1] == v@);
        st.log_file = Some(v);
        Ok(i + 2)
    } else if str_eq(a, "--pressure-events") {
        st.pressure_events = true;
        Ok(i + 1)
    } else if starts_with_dash(a) {
        let mut m = String::from_str("Unknown flag for monitor: ");
        m.append(a);
        m.append(". Use --help for options.");
        Err(ArgError::Message(m))
    } else {
        Ok(i + 1)
    }
}

pub fn parse_monitor_args(args: &Vec<String>) -> (r: Result<MonitorArgs, ArgError>)
    ensures
        view_matches(r, monitor_args(strs_view(args@))),
{
    let ghost av = strs_view(args@);
    let mut st = parse_monitor_args_initial();
    if has_help_flag(args) {
        st.help = true;
        return Ok(st);
    }
    let mut i: usize = 0;
    while i < args.len()
        invariant
            i <= args@.len(),
            av == strs_view(args@),
            monitor_args(av) == monitor_args_from(av, i as int, st@),
        decreases args@.len() - i,
    {
        i = match parse_monitor_args_step(args, i, &mut st) {
            Ok(j) => j,
            Err(e) => {
                return Err(e);
            },
        };
    }
    Ok(st)
}

} // verus!

