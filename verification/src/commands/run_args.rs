//! Arguments of the `run` command.
use vstd::prelude::*;


use crate::cli::{
    bytes_flag, has_help_flag, missing_value, next_value, nonzero_bytes_flag, nonzero_u32_flag,
    nonzero_u64_flag, parse_bytes, parse_nonzero_bytes, parse_nonzero_u32, parse_nonzero_u64,
    parse_u32, starts_with_dash, u32_flag, view_matches, wants_help, ArgError, Parsed,
};
use crate::llm_backend::{opt_str_view, strs_view};
use crate::text::str_eq;


verus! {

pub struct RunArgs {
    /// `--help` or `-h` was given: nothing else is read.
    pub help: bool,
    pub runtime: Option<String>,
    pub model: Option<String>,
    pub context_length: Option<u32>,
    pub max_tokens: Option<u32>,
    pub threads: Option<u32>,
    pub gpu_layers: Option<u32>,
    pub cache_type_k: Option<String>,
    pub cache_type_v: Option<String>,
    pub max_model_len: Option<u32>,
    pub max_num_seqs: Option<u32>,
    pub quantization: Option<String>,
    pub profile_name: Option<String>,
    pub profile_dir: Option<String>,
    pub monitor: bool,
    pub monitor_interval_ms: u64,
    pub monitor_warning: Option<u64>,
    pub monitor_critical: Option<u64>,
    pub capture_output: bool,
    pub abort_on_critical: bool,
    pub warning_context_length: Option<u32>,
    pub warning_context_step: Option<u32>,
    pub warning_context_min: Option<u32>,
    pub warning_max_tokens: Option<u32>,
    pub warning_threads: Option<u32>,
    pub warning_gpu_layers: Option<u32>,
    pub warning_model: Option<String>,
    pub progress: bool,
    pub pressure_events: bool,
    pub dry_run: bool,
    pub extra_args: Vec<String>,
}

pub ghost struct RunArgsView {
    pub help: bool,
    pub runtime: Option<Seq<char>>,
    pub model: Option<Seq<char>>,
    pub context_length: Option<u32>,
    pub max_tokens: Option<u32>,
    pub threads: Option<u32>,
    pub gpu_layers: Option<u32>,
    pub cache_type_k: Option<Seq<char>>,
    pub cache_type_v: Option<Seq<char>>,
    pub max_model_len: Option<u32>,
    pub max_num_seqs: Option<u32>,
    pub quantization: Option<Seq<char>>,
    pub profile_name: Option<Seq<char>>,
    pub profile_dir: Option<Seq<char>>,
    pub monitor: bool,
    pub monitor_interval_ms: u64,
    pub monitor_warning: Option<u64>,
    pub monitor_critical: Option<u64>,
    pub capture_output: bool,
    pub abort_on_critical: bool,
    pub warning_context_length: Option<u32>,
    pub warning_context_step: Option<u32>,
    pub warning_context_min: Option<u32>,
    pub warning_max_tokens: Option<u32>,
    pub warning_threads: Option<u32>,
    pub warning_gpu_layers: Option<u32>,
    pub warning_model: Option<Seq<char>>,
    pub progress: bool,
    pub pressure_events: bool,
    pub dry_run: bool,
    pub extra_args: Seq<Seq<char>>,
}

impl View for RunArgs {
    type V = RunArgsView;

    open spec fn view(&self) -> RunArgsView {
        RunArgsView {
            help: self.help,
            runtime: opt_str_view(self.runtime),
            model: opt_str_view(self.model),
            context_length: self.context_length,
            max_tokens: self.max_tokens,
            threads: self.threads,
            gpu_layers: self.gpu_layers,
            cache_type_k: opt_str_view(self.cache_type_k),
            cache_type_v: opt_str_view(self.cache_type_v),
            max_model_len: self.max_model_len,
            max_num_seqs: self.max_num_seqs,
            quantization: opt_str_view(self.quantization),
            profile_name: opt_str_view(self.profile_name),
            profile_dir: opt_str_view(self.profile_dir),
            monitor: self.monitor,
            monitor_interval_ms: self.monitor_interval_ms,
            monitor_warning: self.monitor_warning,
            monitor_critical: self.monitor_critical,
            capture_output: self.capture_output,
            abort_on_critical: self.abort_on_critical,
            warning_context_length: self.warning_context_length,
            warning_context_step: self.warning_context_step,
            warning_context_min: self.warning_context_min,
            warning_max_tokens: self.warning_max_tokens,
            warning_threads: self.warning_threads,
            warning_gpu_layers: self.warning_gpu_layers,
            warning_model: opt_str_view(self.warning_model),
            progress: self.progress,
            pressure_events: self.pressure_events,
            dry_run: self.dry_run,
            extra_args: strs_view(self.extra_args@),
        }
    }
}

/// The options before any argument is read.
pub open spec fn run_args_initial() -> RunArgsView {
    RunArgsView {
        help: false,
        runtime: None,
        model: None,
        context_length: None,
        max_tokens: None,
        threads: None,
        gpu_layers: None,
        cache_type_k: None,
        cache_type_v: None,
        max_model_len: None,
        max_num_seqs: None,
        quantization: None,
        profile_name: None,
        profile_dir: None,
        monitor: false,
        monitor_interval_ms: 1000,
        monitor_warning: None,
        monitor_critical: None,
        capture_output: false,
        abort_on_critical: false,
        warning_context_length: None,
        warning_context_step: None,
        warning_context_min: None,
        warning_max_tokens: None,
        warning_threads: None,
        warning_gpu_layers: None,
        warning_model: None,
        progress: false,
        pressure_events: false,
        dry_run: false,
        extra_args: Seq::empty(),
    }
}

/// The options that `args[i..]` give, starting from `st`.
pub open spec fn run_args_from(args: Seq<Seq<char>>, i: int, st: RunArgsView) -> Parsed<RunArgsView>
    decreases args.len() - i,
{
    if i < 0 || i >= args.len() {
        Parsed::Value(st)
    } else {
        let a = args[i];
        if a == "--runtime"@ {
            if i + 1 < args.len() {
                run_args_from(args, i + 2, RunArgsView { runtime: Some(args[i + 1]), ..st })
            } else {
                Parsed::Invalid(missing_value("--runtime"@))
            }
        } else if a == "--model"@ {
            if i + 1 < args.len() {
                run_args_from(args, i + 2, RunArgsView { model: Some(args[i + 1]), ..st })
            } else {
                Parsed::Invalid(missing_value("--model"@))
            }
        } else if a == "--context-length"@ {
            if i + 1 < args.len() {
                match nonzero_u32_flag("--context-length"@, args[i + 1]) {
                    Parsed::Value(n) => run_args_from(args, i + 2, RunArgsView { context_length: Some(n), ..st }),
                    Parsed::Invalid(m) => Parsed::Invalid(m),
                    Parsed::Overflow => Parsed::Overflow,
                }
            } else {
                Parsed::Invalid(missing_value("--context-length"@))
            }
        } else if a == "--max-tokens"@ {
            if i + 1 < args.len() {
                match u32_flag("--max-tokens"@, args[i + 1]) {
                    Parsed::Value(n) => run_args_from(args, i + 2, RunArgsView { max_tokens: Some(n), ..st }),
                    Parsed::Invalid(m) => Parsed::Invalid(m),
                    Parsed::Overflow => Parsed::Overflow,
                }
            } else {
                Parsed::Invalid(missing_value("--max-tokens"@))
            }
        } else if a == "--threads"@ {
            if i + 1 < args.len() {
                match nonzero_u32_flag("--threads"@, args[i + 1]) {
                    Parsed::Value(n) => run_args_from(args, i + 2, RunArgsView { threads: Some(n), ..st }),
                    Parsed::Invalid(m) => Parsed::Invalid(m),
                    Parsed::Overflow => Parsed::Overflow,
                }
            } else {
                Parsed::Invalid(missing_value("--threads"@))
            }
        } else if a == "--cache-type-k"@ {
            if i + 1 < args.len() {
                run_args_from(args, i + 2, RunArgsView { cache_type_k: Some(args[i + 1]), ..st })
            } else {
                Parsed::Invalid(missing_value("--cache-type-k"@))
            }
        } else if a == "--cache-type-v"@ {
            if i + 1 < args.len() {
                run_args_from(args, i + 2, RunArgsView { cache_type_v: Some(args[i + 1]), ..st })
            } else {
                Parsed::Invalid(missing_value("--cache-type-v"@))
            }
        } else if a == "--gpu-layers"@ {
            if i + 1 < args.len() {
                match u32_flag("--gpu-layers"@, args[i + 1]) {
                    Parsed::Value(n) => run_args_from(args, i + 2, RunArgsView { gpu_layers: Some(n), ..st }),
                    Parsed::Invalid(m) => Parsed::Invalid(m),
                    Parsed::Overflow => Parsed::Overflow,
                }
            } else {
                Parsed::Invalid(missing_value("--gpu-layers"@))
            }
        } else if a == "--max-model-len"@ {
            if i + 1 < args.len() {
                match u32_flag("--max-model-len"@, args[i + 1]) {
                    Parsed::Value(n) => run_args_from(args, i + 2, RunArgsView { max_model_len: Some(n), ..st }),
                    Parsed::Invalid(m) => Parsed::Invalid(m),
                    Parsed::Overflow => Parsed::Overflow,
                }
            } else {
                Parsed::Invalid(missing_value("--max-model-len"@))
            }
        } else if a == "--max-num-seqs"@ {
            if i + 1 < args.len() {
                match u32_flag("--max-num-seqs"@, args[i + 1]) {
                    Parsed::Value(n) => run_args_from(args, i + 2, RunArgsView { max_num_seqs: Some(n), ..st }),
                    Parsed::Invalid(m) => Parsed::Invalid(m),
                    Parsed::Overflow => Parsed::Overflow,
                }
            } else {
                Parsed::Invalid(missing_value("--max-num-seqs"@))
            }
        } else if a == "--quantization"@ {
            if i + 1 < args.len() {
                run_args_from(args, i + 2, RunArgsView { quantization: Some(args[i + 1]), ..st })
            } else {
                Parsed::Invalid(missing_value("--quantization"@))
            }
        } else if a == "--profile"@ {
            if i + 1 < args.len() {
                run_args_from(args, i + 2, RunArgsView { profile_name: Some(args[i + 1]), ..st })
            } else {
                Parsed::Invalid(missing_value("--profile"@))
            }
        } else if a == "--profile-dir"@ {
            if i + 1 < args.len() {
                run_args_from(args, i + 2, RunArgsView { profile_dir: Some(args[i + 1]), ..st })
            } else {
                Parsed::Invalid(missing_value("--profile-dir"@))
            }
        } else if a == "--monitor"@ {
            run_args_from(args, i + 1, RunArgsView { monitor: true, ..st })
        } else if a == "--monitor-interval-ms"@ {
            if i + 1 < args.len() {
                match nonzero_u64_flag("--monitor-interval-ms"@, args[i + 1]) {
                    Parsed::Value(n) => run_args_from(args, i + 2, RunArgsView { monitor_interval_ms: n, ..st }),
                    Parsed::Invalid(m) => Parsed::Invalid(m),
                    Parsed::Overflow => Parsed::Overflow,
                }
            } else {
                Parsed::Invalid(missing_value("--monitor-interval-ms"@))
            }
        } else if a == "--monitor-warning"@ {
            if i + 1 < args.len() {
                match nonzero_bytes_flag("--monitor-warning"@, args[i + 1], false) {
                    Parsed::Value(n) => run_args_from(args, i + 2, RunArgsView { monitor_warning: Some(n), ..st }),
                    Parsed::Invalid(m) => Parsed::Invalid(m),
                    Parsed::Overflow => Parsed::Overflow,
                }
            } else {
                Parsed::Invalid(missing_value("--monitor-warning"@))
            }
        } else if a == "--monitor-critical"@ {
            if i + 1 < args.len() {
                match bytes_flag("--monitor-critical"@, args[i + 1], false) {
                    Parsed::Value(n) => run_args_from(args, i + 2, RunArgsView { monitor_critical: Some(n), ..st }),
                    Parsed::Invalid(m) => Parsed::Invalid(m),
                    Parsed::Overflow => Parsed::Overflow,
                }
            } else {
                Parsed::Invalid(missing_value("--monitor-critical"@))
            }
        } else if a == "--abort-on-critical"@ {
            run_args_from(args, i + 1, RunArgsView { abort_on_critical: true, ..st })
        } else if a == "--warning-context-length"@ {
            if i + 1 < args.len() {
                match u32_flag("--warning-context-length"@, args[i + 1]) {
                    Parsed::Value(n) => run_args_from(args, i + 2, RunArgsView { warning_context_length: Some(n), ..st }),
                    Parsed::Invalid(m) => Parsed::Invalid(m),
                    Parsed::Overflow => Parsed::Overflow,
                }
            } else {
                Parsed::Invalid(missing_value("--warning-context-length"@))
            }
        } else if a == "--warning-context-step"@ {
            if i + 1 < args.len() {
                match u32_flag("--warning-context-step"@, args[i + 1]) {
                    Parsed::Value(n) => run_args_from(args, i + 2, RunArgsView { warning_context_step: Some(n), ..st }),
                    Parsed::Invalid(m) => Parsed::Invalid(m),
                    Parsed::Overflow => Parsed::Overflow,
                }
            } else {
                Parsed::Invalid(missing_value("--warning-context-step"@))
            }
        } else if a == "--warning-context-min"@ {
            if i + 1 < args.len() {
                match u32_flag("--warning-context-min"@, args[i + 1]) {
                    Parsed::Value(n) => run_args_from(args, i + 2, RunArgsView { warning_context_min: Some(n), ..st }),
                    Parsed::Invalid(m) => Parsed::Invalid(m),
                    Parsed::Overflow => Parsed::Overflow,
                }
            } else {
                Parsed::Invalid(missing_value("--warning-context-min"@))
            }
        } else if a == "--warning-max-tokens"@ {
            if i + 1 < args.len() {
                match u32_flag("--warning-max-tokens"@, args[i + 1]) {
                    Parsed::Value(n) => run_args_from(args, i + 2, RunArgsView { warning_max_tokens: Some(n), ..st }),
                    Parsed::Invalid(m) => Parsed::Invalid(m),
                    Parsed::Overflow => Parsed::Overflow,
                }
            } else {
                Parsed::Invalid(missing_value("--warning-max-tokens"@))
            }
        } else if a == "--warning-threads"@ {
            if i + 1 < args.len() {
                match u32_flag("--warning-threads"@, args[i + 1]) {
                    Parsed::Value(n) => run_args_from(args, i + 2, RunArgsView { warning_threads: Some(n), ..st }),
                    Parsed::Invalid(m) => Parsed::Invalid(m),
                    Parsed::Overflow => Parsed::Overflow,
                }
            } else {
                Parsed::Invalid(missing_value("--warning-threads"@))
            }
        } else if a == "--warning-gpu-layers"@ {
            if i + 1 < args.len() {
                match u32_flag("--warning-gpu-layers"@, args[i + 1]) {
                    Parsed::Value(n) => run_args_from(args, i + 2, RunArgsView { warning_gpu_layers: Some(n), ..st }),
                    Parsed::Invalid(m) => Parsed::Invalid(m),
                    Parsed::Overflow => Parsed::Overflow,
                }
            } else {
                Parsed::Invalid(missing_value("--warning-gpu-layers"@))
            }
        } else if a == "--warning-model"@ {
            if i + 1 < args.len() {
                run_args_from(args, i + 2, RunArgsView { warning_model: Some(args[i + 1]), ..st })
            } else {
                Parsed::Invalid(missing_value("--warning-model"@))
            }
        } else if a == "--capture-output"@ {
            run_args_from(args, i + 1, RunArgsView { capture_output: true, ..st })
        } else if a == "--progress"@ {
            run_args_from(args, i + 1, RunArgsView { progress: true, ..st })
        } else if a == "--pressure-events"@ {
            run_args_from(args, i + 1, RunArgsView { pressure_events: true, ..st })
        } else if a == "--dry-run"@ {
            run_args_from(args, i + 1, RunArgsView { dry_run: true, ..st })
        } else if a == "--"@ {
            Parsed::Value(RunArgsView { extra_args: st.extra_args + args.subrange(i + 1, args.len() as int), ..st })
        } else if a.len() > 0 && a[0] == '-' {
            Parsed::Invalid("Unknown flag for run: "@ + a + ""@)
        } else {
            run_args_from(args, i + 1, RunArgsView { extra_args: st.extra_args.push(a), ..st })
        }
    }
}

/// The options that the arguments give: with `--help` or `-h` anywhere, only
/// `help`; otherwise read from left to right.
pub open spec fn run_args(args: Seq<Seq<char>>) -> Parsed<RunArgsView> {
    if wants_help(args) {
        Parsed::Value(RunArgsView { help: true, ..run_args_initial() })
    } else {
        run_args_from(args, 0, run_args_initial())
    }
}

fn parse_run_args_initial() -> (r: RunArgs)
    ensures
        r@ == run_args_initial(),
{
    let r = RunArgs {
        help: false,
        runtime: None,
        model: None,
        context_length: None,
        max_tokens: None,
        threads: None,
        gpu_layers: None,
        cache_type_k: None,
        cache_type_v: None,
        max_model_len: None,
        max_num_seqs: None,
        quantization: None,
        profile_name: None,
        profile_dir: None,
        monitor: false,
        monitor_interval_ms: 1000,
        monitor_warning: None,
        monitor_critical: None,
        capture_output: false,
        abort_on_critical: false,
        warning_context_length: None,
        warning_context_step: None,
        warning_context_min: None,
        warning_max_tokens: None,
        warning_threads: None,
        warning_gpu_layers: None,
        warning_model: None,
        progress: false,
        pressure_events: false,
        dry_run: false,
        extra_args: Vec::new(),
    };
    assert(r@.extra_args =~= Seq::<Seq<char>>::empty());
    r
}

fn parse_run_args_rest(args: &Vec<String>, i: usize, st: &mut RunArgs)
    requires
        i < args@.len(),
    ensures
        final(st)@ == (RunArgsView { extra_args: old(st)@.extra_args + strs_view(args@).subrange(i + 1, args@.len() as int), ..old(st)@ }),
{
    let ghost av = strs_view(args@);
    let ghost before = st.extra_args@;
    let ghost st0 = st@;
    let _n = args.len();
    let mut j = i + 1;
    assert(av.subrange(i + 1, j as int) =~= Seq::<Seq<char>>::empty());
    while j < args.len()
        invariant
            i < j <= args@.len(),
            av == strs_view(args@),
            strs_view(st.extra_args@) == strs_view(before) + av.subrange(i + 1, j as int),
            st@ == (RunArgsView { extra_args: st@.extra_args, ..st0 }),
        decreases args@.len() - j,
    {
        let ghost prev = st.extra_args@;
        st.extra_args.push(args[j].clone());
        assert(strs_view(st.extra_args@) =~= strs_view(prev).push(av[j as int]));
        assert(av.subrange(i + 1, j + 1) =~= av.subrange(i + 1, j as int).push(av[j as int]));
        j = j + 1;
    }
}

#[verifier::rlimit(40)]
fn parse_run_args_step(args: &Vec<String>, i: usize, st: &mut RunArgs) -> (r: Result<usize, ArgError>)
    requires
        i < args@.len(),
    ensures
        match r {
            Ok(j) => i < j <= args@.len() && run_args_from(strs_view(args@), i as int, old(st)@) == run_args_from(strs_view(args@), j as int, final(st)@),
            Err(e) => view_matches(Err::<RunArgs, ArgError>(e), run_args_from(strs_view(args@), i as int, old(st)@)),
        },
{
    let ghost av = strs_view(args@);
    let _n = args.len();
    let a = args[i].as_str();
    assert(av[i as int] == a@);
    if str_eq(a, "--runtime") {
        let v = match next_value("--runtime", args, i + 1) {
            Ok(v) => v,
            Err(e) => {
                return Err(e);
            },
        };
        assert(av[i + 1] == v@);
        st.runtime = Some(v);
        Ok(i + 2)
    } else if str_eq(a, "--model") {
        let v = match next_value("--model", args, i + 1) {
            Ok(v) => v,
            Err(e) => {
                return Err(e);
            },
        };
        assert(av[i + 1] == v@);
        st.model = Some(v);
        Ok(i + 2)
    } else if str_eq(a, "--context-length") {
        let v = match next_value("--context-length", args, i + 1) {
            Ok(v) => v,
            Err(e) => {
                return Err(e);
            },
        };
        assert(av[i + 1] == v@);
        let n = match parse_nonzero_u32("--context-length", v.as_str()) {
            Ok(n) => n,
            Err(e) => {
                return Err(e);
            },
        };
        st.context_length = Some(n);
        Ok(i + 2)
    } else if str_eq(a, "--max-tokens") {
        let v = match next_value("--max-tokens", args, i + 1) {
            Ok(v) => v,
            Err(e) => {
                return Err(e);
            },
        };
        assert(av[i + 1] == v@);
        let n = match parse_u32("--max-tokens", v.as_str()) {
            Ok(n) => n,
            Err(e) => {
                return Err(e);
            },
        };
        st.max_tokens = Some(n);
        Ok(i + 2)
    } else if str_eq(a, "--threads") {
        let v = match next_value("--threads", args, i + 1) {
            Ok(v) => v,
            Err(e) => {
                return Err(e);
            },
        };
        assert(av[i + 1] == v@);
        let n = match parse_nonzero_u32("--threads", v.as_str()) {
            Ok(n) => n,
            Err(e) => {
                return Err(e);
            },
        };
        st.threads = Some(n);
        Ok(i + 2)
    } else if str_eq(a, "--cache-type-k") {
        let v = match next_value("--cache-type-k", args, i + 1) {
            Ok(v) => v,
            Err(e) => {
                return Err(e);
            },
        };
        assert(av[i + 1] == v@);
        st.cache_type_k = Some(v);
        Ok(i + 2)
    } else if str_eq(a, "--cache-type-v") {
        let v = match next_value("--cache-type-v", args, i + 1) {
            Ok(v) => v,
            Err(e) => {
                return Err(e);
            },
        };
        assert(av[i + 1] == v@);
        st.cache_type_v = Some(v);
        Ok(i + 2)
    } else if str_eq(a, "--gpu-layers") {
        let v = match next_value("--gpu-layers", args, i + 1) {
            Ok(v) => v,
            Err(e) => {
                return Err(e);
            },
        };
        assert(av[i + 1] == v@);
        let n = match parse_u32("--gpu-layers", v.as_str()) {
            Ok(n) => n,
            Err(e) => {
                return Err(e);
            },
        };
        st.gpu_layers = Some(n);
        Ok(i + 2)
    } else if str_eq(a, "--max-model-len") {
        let v = match next_value("--max-model-len", args, i + 1) {
            Ok(v) => v,
            Err(e) => {
                return Err(e);
            },
        };
        assert(av[i + 1] == v@);
        let n = match parse_u32("--max-model-len", v.as_str()) {
            Ok(n) => n,
            Err(e) => {
                return Err(e);
            },
        };
        st.max_model_len = Some(n);
        Ok(i + 2)
    } else if str_eq(a, "--max-num-seqs") {
        let v = match next_value("--max-num-seqs", args, i + 1) {
            Ok(v) => v,
            Err(e) => {
                return Err(e);
            },
        };
        assert(av[i + 1] == v@);
        let n = match parse_u32("--max-num-seqs", v.as_str()) {
            Ok(n) => n,
            Err(e) => {
                return Err(e);
            },
        };
        st.max_num_seqs = Some(n);
        Ok(i + 2)
    } else if str_eq(a, "--quantization") {
        let v = match next_value("--quantization", args, i + 1) {
            Ok(v) => v,
            Err(e) => {
                return Err(e);
            },
        };
        assert(av[i + 1] == v@);
        st.quantization = Some(v);
        Ok(i + 2)
    } else if str_eq(a, "--profile") {
        let v = match next_value("--profile", args, i + 1) {
            Ok(v) => v,
            Err(e) => {
                return Err(e);
            },
        };
        assert(av[i + 1] == v@);
        st.profile_name = Some(v);
        Ok(i + 2)
    } else if str_eq(a, "--profile-dir") {
        let v = match next_value("--profile-dir", args, i + 1) {
            Ok(v) => v,
            Err(e) => {
                return Err(e);
            },
        };
        assert(av[i + 1] == v@);
        st.profile_dir = Some(v);
        Ok(i + 2)
    } else if str_eq(a, "--monitor") {
        st.monitor = true;
        Ok(i + 1)
    } else if str_eq(a, "--monitor-interval-ms") {
        let v = match next_value("--monitor-interval-ms", args, i + 1) {
            Ok(v) => v,
            Err(e) => {
                return Err(e);
            },
        };
        assert(av[i + 1] == v@);
        let n = match parse_nonzero_u64("--monitor-interval-ms", v.as_str()) {
            Ok(n) => n,
            Err(e) => {
                return Err(e);
            },
        };
        st.monitor_interval_ms = n;
        Ok(i + 2)
    } else if str_eq(a, "--monitor-warning") {
        let v = match next_value("--monitor-warning", args, i + 1) {
            Ok(v) => v,
            Err(e) => {
                return Err(e);
            },
        };
        assert(av[i + 1] == v@);
        let n = match parse_nonzero_bytes("--monitor-warning", v.as_str(), false) {
            Ok(n) => n,
            Err(e) => {
                return Err(e);
            },
        };
        st.monitor_warning = Some(n);
        Ok(i + 2)
    } else if str_eq(a, "--monitor-critical") {
        let v = match next_value("--monitor-critical", args, i + 1) {
            Ok(v) => v,
            Err(e) => {
                return Err(e);
            },
        };
        assert(av[i + 1] == v@);
        let n = match parse_bytes("--monitor-critical", v.as_str(), false) {
            Ok(n) => n,
            Err(e) => {
                return Err(e);
            },
        };
        st.monitor_critical = Some(n);
        Ok(i + 2)
    } else if str_eq(a, "--abort-on-critical") {
        st.abort_on_critical = true;
        Ok(i + 1)
    } else if str_eq(a, "--warning-context-length") {
        let v = match next_value("--warning-context-length", args, i + 1) {
            Ok(v) => v,
            Err(e) => {
                return Err(e);
            },
        };
        assert(av[i + 1] == v@);
        let n = match parse_u32("--warning-context-length", v.as_str()) {
            Ok(n) => n,
            Err(e) => {
                return Err(e);
            },
        };
        st.warning_context_length = Some(n);
        Ok(i + 2)
    } else if str_eq(a, "--warning-context-step") {
        let v = match next_value("--warning-context-step", args, i + 1) {
            Ok(v) => v,
            Err(e) => {
                return Err(e);
            },
        };
        assert(av[i + 1] == v@);
        let n = match parse_u32("--warning-context-step", v.as_str()) {
            Ok(n) => n,
            Err(e) => {
                return Err(e);
            },
        };
        st.warning_context_step = Some(n);
        Ok(i + 2)
    } else if str_eq(a, "--warning-context-min") {
        let v = match next_value("--warning-context-min", args, i + 1) {
            Ok(v) => v,
            Err(e) => {
                return Err(e);
            },
        };
        assert(av[i + 1] == v@);
        let n = match parse_u32("--warning-context-min", v.as_str()) {
            Ok(n) => n,
            Err(e) => {
                return Err(e);
            },
        };
        st.warning_context_min = Some(n);
        Ok(i + 2)
    } else if str_eq(a, "--warning-max-tokens") {
        let v = match next_value("--warning-max-tokens", args, i + 1) {
            Ok(v) => v,
            Err(e) => {
                return Err(e);
            },
        };
        assert(av[i + 1] == v@);
        let n = match parse_u32("--warning-max-tokens", v.as_str()) {
            Ok(n) => n,
            Err(e) => {
                return Err(e);
            },
        };
        st.warning_max_tokens = Some(n);
        Ok(i + 2)
    } else if str_eq(a, "--warning-threads") {
        let v = match next_value("--warning-threads", args, i + 1) {
            Ok(v) => v,
            Err(e) => {
                return Err(e);
            },
        };
        assert(av[i + 1] == v@);
        let n = match parse_u32("--warning-threads", v.as_str()) {
            Ok(n) => n,
            Err(e) => {
                return Err(e);
            },
        };
        st.warning_threads = Some(n);
        Ok(i + 2)
    } else if str_eq(a, "--warning-gpu-layers") {
        let v = match next_value("--warning-gpu-layers", args, i + 1) {
            Ok(v) => v,
            Err(e) => {
                return Err(e);
            },
        };
        assert(av[i + 1] == v@);
        let n = match parse_u32("--warning-gpu-layers", v.as_str()) {
            Ok(n) => n,
            Err(e) => {
                return Err(e);
            },
        };
        st.warning_gpu_layers = Some(n);
        Ok(i + 2)
    } else if str_eq(a, "--warning-model") {
        let v = match next_value("--warning-model", args, i + 1) {
            Ok(v) => v,
            Err(e) => {
                return Err(e);
            },
        };
        assert(av[i + 1] == v@);
        st.warning_model = Some(v);
        Ok(i + 2)
    } else if str_eq(a, "--capture-output") {
        st.capture_output = true;
        Ok(i + 1)
    } else if str_eq(a, "--progress") {
        st.progress = true;
        Ok(i + 1)
    } else if str_eq(a, "--pressure-events") {
        st.pressure_events = true;
        Ok(i + 1)
    } else if str_eq(a, "--dry-run") {
        st.dry_run = true;
        Ok(i + 1)
    } else if str_eq(a, "--") {
        parse_run_args_rest(args, i, st);
        Ok(args.len())
    } else if starts_with_dash(a) {
        let mut m = String::from_str("Unknown flag for run: ");
        m.append(a);
        m.append("");
        Err(ArgError::Message(m))
    } else {
        let ghost before = st.extra_args@;
        st.extra_args.push(args[i].clone());
        assert(strs_view(st.extra_args@) =~= strs_view(before).push(a@));
        Ok(i + 1)
    }
}

pub fn parse_run_args(args: &Vec<String>) -> (r: Result<RunArgs, ArgError>)
    ensures
        view_matches(r, run_args(strs_view(args@))),
{
    let ghost av = strs_view(args@);
    let mut st = parse_run_args_initial();
    if has_help_flag(args) {
        st.help = true;
        return Ok(st);
    }
    let mut i: usize = 0;
    while i < args.len()
        invariant
            i <= args@.len(),
            av == strs_view(args@),
            run_args(av) == run_args_from(av, i as int, st@),
        decreases args@.len() - i,
    {
        i = match parse_run_args_step(args, i, &mut st) {
            Ok(j) => j,
            Err(e) => {
                return Err(e);
            },
        };
    }
    Ok(st)
}

} // verus!

