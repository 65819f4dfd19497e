//! The `run` command's decisions: the configuration from the flags and the
//! profile, the runtime, how the process is supervised, the memory thresholds, and
//! the lines it prints.
use vstd::prelude::*;

use crate::adjust::{PressurePolicy, PressurePolicyView};
use crate::commands::run_args::{RunArgs, RunArgsView};
use crate::llm_backend::{
    copy_opt_string, copy_strings, strs_view, CommandSpec, RunConfig, RunConfigView,
};
use crate::memory_monitor::MemoryThresholds;
use crate::profile::{apply_spec, Profile, ProfileView};
use crate::text::{concat2, contains, join_spaces, lowercase, push_char, str_contains, str_eq, to_lowercase};

verus! {

/// The runtimes that `run` can start.
#[derive(Debug, Clone, Copy, PartialEq, Eq, Structural)]
pub enum Runtime {
    LlamaCpp,
    Ollama,
    Mlc,
    Vllm,
}

/// The runtime a name selects: `llama.cpp` or `llama`, `ollama`, `mlc` or
/// `mlc-llm`, and `vllm`.
pub open spec fn runtime_of(name: Seq<char>) -> Option<Runtime> {
    if name == "llama.cpp"@ || name == "llama"@ {
        Some(Runtime::LlamaCpp)
    } else if name == "ollama"@ {
        Some(Runtime::Ollama)
    } else if name == "mlc"@ || name == "mlc-llm"@ {
        Some(Runtime::Mlc)
    } else if name == "vllm"@ {
        Some(Runtime::Vllm)
    } else {
        None
    }
}

/// The runtime for a name, or the message for one that is not supported.
pub fn select_runtime(name: &str) -> (r: Result<Runtime, String>)
    ensures
        match runtime_of(name@) {
            Some(rt) => r == Ok::<Runtime, String>(rt),
            None => r matches Err(e) && e@ == "Unsupported runtime: "@ + name@,
        },
{
    if str_eq(name, "llama.cpp") || str_eq(name, "llama") {
        Ok(Runtime::LlamaCpp)
    } else if str_eq(name, "ollama") {
        Ok(Runtime::Ollama)
    } else if str_eq(name, "mlc") || str_eq(name, "mlc-llm") {
        Ok(Runtime::Mlc)
    } else if str_eq(name, "vllm") {
        Ok(Runtime::Vllm)
    } else {
        Err(concat2("Unsupported runtime: ", name))
    }
}

/// How `run` supervises the runtime.
#[derive(Debug, Clone, Copy, PartialEq, Eq, Structural)]
pub enum RunMode {
    /// Print the command line and stop.
    DryRun,
    /// Watch the process's memory and react to pressure.
    Monitor,
    /// Relay the process's output line by line.
    Capture,
    /// Run the process and wait for it.
    Direct,
}

/// Everything `run` does once its flags and profile are read.
pub struct RunPlan {
    pub config: RunConfig,
    pub runtime: Runtime,
    pub mode: RunMode,
    pub capture_output: bool,
    pub progress: bool,
    pub pressure_events: bool,
    pub monitor_interval_ms: u64,
    pub monitor_warning: Option<u64>,
    pub monitor_critical: Option<u64>,
    pub policy: PressurePolicy,
}

/// The configuration the flags give before any profile: no runtime when none is
/// named.
pub open spec fn base_config(a: RunArgsView) -> RunConfigView {
    RunConfigView {
        runtime: match a.runtime {
            Some(r) => r,
            None => Seq::empty(),
        },
        model: a.model,
        context_length: a.context_length,
        max_tokens: a.max_tokens,
        threads: a.threads,
        gpu_layers: a.gpu_layers,
        cache_type_k: a.cache_type_k,
        cache_type_v: a.cache_type_v,
        max_model_len: a.max_model_len,
        max_num_seqs: a.max_num_seqs,
        quantization: a.quantization,
        extra_args: a.extra_args,
    }
}

/// The configuration after the profile (when one was loaded) fills what the flags
/// left unset, with `llama.cpp` as the runtime when none is named; or the
/// profile's error.
pub open spec fn planned_config(a: RunArgsView, profile: Option<ProfileView>) -> Result<RunConfigView, Seq<char>> {
    let applied = match profile {
        Some(p) => apply_spec(p, base_config(a)),
        None => (base_config(a), Ok(())),
    };
    match applied.1 {
        Err(e) => Err(e),
        Ok(_) => Ok(
            if applied.0.runtime.len() == 0 {
                RunConfigView { runtime: "llama.cpp"@, ..applied.0 }
            } else {
                applied.0
            },
        ),
    }
}

/// The model to switch to on warning: the flag's, else the profile's.
pub open spec fn planned_warning_model(a: RunArgsView, profile: Option<ProfileView>) -> Option<Seq<char>> {
    match a.warning_model {
        Some(m) => Some(m),
        None => match profile {
            Some(p) => p.warning_model,
            None => None,
        },
    }
}

/// The supervision mode: a dry run wins; `--pressure-events` implies monitoring,
/// and `--progress` implies capturing output.
pub open spec fn planned_mode(a: RunArgsView) -> RunMode {
    if a.dry_run {
        RunMode::DryRun
    } else if a.monitor || a.pressure_events {
        RunMode::Monitor
    } else if a.capture_output || a.progress {
        RunMode::Capture
    } else {
        RunMode::Direct
    }
}

pub open spec fn planned_policy(a: RunArgsView, profile: Option<ProfileView>) -> PressurePolicyView {
    PressurePolicyView {
        abort_on_critical: a.abort_on_critical,
        warning_context_length: a.warning_context_length,
        warning_context_step: a.warning_context_step,
        warning_context_min: a.warning_context_min,
        warning_max_tokens: a.warning_max_tokens,
        warning_threads: a.warning_threads,
        warning_gpu_layers: a.warning_gpu_layers,
        warning_model: planned_warning_model(a, profile),
    }
}

pub open spec fn profile_view_opt(profile: Option<&Profile>) -> Option<ProfileView> {
    match profile {
        Some(p) => Some(p@),
        None => None,
    }
}

/// Plans a `run` from its flags and the profile loaded for `--profile`, if any. It
/// fails with the profile's error, or when the runtime is not supported.
pub fn plan_run(args: &RunArgs, profile: Option<&Profile>) -> (r: Result<RunPlan, String>)
    ensures
        ({
            let a = args@;
            let pv = profile_view_opt(profile);
            match planned_config(a, pv) {
                Err(e) => r matches Err(m) && m@ == e,
                Ok(c) => match runtime_of(c.runtime) {
                    None => r matches Err(m) && m@ == "Unsupported runtime: "@ + c.runtime,
                    Some(rt) => r matches Ok(plan) && plan.config@ == c && plan.runtime == rt
                        && plan.mode == planned_mode(a) && plan.capture_output == (a.capture_output
                        || a.progress) && plan.progress == a.progress && plan.pressure_events
                        == a.pressure_events && plan.monitor_interval_ms == a.monitor_interval_ms
                        && plan.monitor_warning == a.monitor_warning && plan.monitor_critical
                        == a.monitor_critical && plan.policy@ == planned_policy(a, pv),
                },
            }
        }),
        r matches Ok(plan) ==> {
            let a = args@;
            &&& a.dry_run ==> plan.mode == RunMode::DryRun
            &&& (!a.dry_run && (a.monitor || a.pressure_events)) ==> plan.mode == RunMode::Monitor
            &&& (!a.dry_run && !a.monitor && !a.pressure_events && (a.capture_output
                || a.progress)) ==> plan.mode == RunMode::Capture
            &&& (!a.dry_run && !a.monitor && !a.pressure_events && !a.capture_output
                && !a.progress) ==> plan.mode == RunMode::Direct
        },
{
    let mut config = RunConfig {
        runtime: match &args.runtime {
            Some(r) => r.clone(),
            None => String::new(),
        },
        model: copy_opt_string(&args.model),
        context_length: args.context_length,
        max_tokens: args.max_tokens,
        threads: args.threads,
        gpu_layers: args.gpu_layers,
        cache_type_k: copy_opt_string(&args.cache_type_k),
        cache_type_v: copy_opt_string(&args.cache_type_v),
        max_model_len: args.max_model_len,
        max_num_seqs: args.max_num_seqs,
        quantization: copy_opt_string(&args.quantization),
        extra_args: copy_strings(&args.extra_args),
    };
    assert(config@ == base_config(args@));
    let mut warning_model = copy_opt_string(&args.warning_model);
    if let Some(p) = profile {
        if warning_model.is_none() {
            warning_model = copy_opt_string(&p.warning_model);
        }
        match p.apply_to_run_config(&mut config) {
            Ok(()) => {},
            Err(e) => {
                return Err(e);
            },
        }
    }
    if config.runtime.as_str().unicode_len() == 0 {
        config.runtime = String::from_str("llama.cpp");
    }
    let runtime = select_runtime(config.runtime.as_str())?;
    let mode = if args.dry_run {
        RunMode::DryRun
    } else if args.monitor || args.pressure_events {
        RunMode::Monitor
    } else if args.capture_output || args.progress {
        RunMode::Capture
    } else {
        RunMode::Direct
    };
    let policy = PressurePolicy {
        abort_on_critical: args.abort_on_critical,
        warning_context_length: args.warning_context_length,
        warning_context_step: args.warning_context_step,
        warning_context_min: args.warning_context_min,
        warning_max_tokens: args.warning_max_tokens,
        warning_threads: args.warning_threads,
        warning_gpu_layers: args.warning_gpu_layers,
        warning_model,
    };
    Ok(
        RunPlan {
            config,
            runtime,
            mode,
            capture_output: args.capture_output || args.progress,
            progress: args.progress,
            pressure_events: args.pressure_events,
            monitor_interval_ms: args.monitor_interval_ms,
            monitor_warning: args.monitor_warning,
            monitor_critical: args.monitor_critical,
            policy,
        },
    )
}

/// The warning threshold when none is given: 512 MiB.
pub const DEFAULT_WARNING_BYTES: u64 = 536870912;

/// The critical threshold when none is given: 1 GiB.
pub const DEFAULT_CRITICAL_BYTES: u64 = 1073741824;

/// The thresholds for `run --monitor`, with the defaults for those not given; the
/// critical one may not be below the warning one.
pub fn run_thresholds(warning: Option<u64>, critical: Option<u64>) -> (r: Result<MemoryThresholds, String>)
    ensures
        ({
            let w = match warning {
                Some(w) => w,
                None => DEFAULT_WARNING_BYTES,
            };
            let c = match critical {
                Some(c) => c,
                None => DEFAULT_CRITICAL_BYTES,
            };
            if c < w {
                r matches Err(e) && e@ == "Monitor critical threshold must be >= warning threshold"@
            } else {
                r matches Ok(t) && t.warning_bytes == w && t.critical_bytes == c
            }
        }),
{
    let w = match warning {
        Some(w) => w,
        None => DEFAULT_WARNING_BYTES,
    };
    let c = match critical {
        Some(c) => c,
        None => DEFAULT_CRITICAL_BYTES,
    };
    if c < w {
        return Err(String::from_str("Monitor critical threshold must be >= warning threshold"));
    }
    Ok(MemoryThresholds { warning_bytes: w, critical_bytes: c })
}

/// The polling interval in milliseconds: at least 100.
pub fn poll_interval_ms(interval_ms: u64) -> (r: u64)
    ensures
        r == if interval_ms >= 100 {
            interval_ms
        } else {
            100
        },
{
    if interval_ms >= 100 {
        interval_ms
    } else {
        100
    }
}

/// The line a dry run prints: the program, a space, and the arguments separated by
/// spaces.
pub open spec fn dry_run_line_spec(program: Seq<char>, args: Seq<Seq<char>>) -> Seq<char> {
    program + seq![' '] + join_spaces(args)
}

pub fn dry_run_line(spec: &CommandSpec) -> (r: String)
    ensures
        r@ == dry_run_line_spec(spec.program@, strs_view(spec.args@)),
{
    let ghost av = strs_view(spec.args@);
    let mut out = spec.program.clone();
    push_char(&mut out, ' ');
    let ghost head = out@;
    let mut i: usize = 0;
    while i < spec.args.len()
        invariant
            i <= spec.args@.len(),
            av == strs_view(spec.args@),
            out@ == head + join_spaces(av.subrange(0, i as int)),
        decreases spec.args@.len() - i,
    {
        if i > 0 {
            push_char(&mut out, ' ');
        }
        out.append(spec.args[i].as_str());
        let ghost part = av.subrange(0, i + 1);
        assert(part.drop_last() =~= av.subrange(0, i as int));
        assert(part.last() == spec.args@[i as int]@);
        if i == 0 {
            assert(out@ =~= head + join_spaces(part));
        } else {
            assert(out@ =~= head + join_spaces(part));
        }
        i = i + 1;
    }
    assert(av.subrange(0, av.len() as int) =~= av);
    out
}

/// Whether a line of output reports generation speed: lower-cased, it mentions
/// `tok/s`, `tokens/s` or `ms/token`.
pub open spec fn is_progress_line(line: Seq<char>) -> bool {
    let l = lowercase(line);
    contains(l, "tok/s"@) || contains(l, "tokens/s"@) || contains(l, "ms/token"@)
}

/// The line itself when it reports progress.
pub fn detect_progress(line: &str) -> (r: Option<String>)
    ensures
        is_progress_line(line@) ==> (r matches Some(s) && s@ == line@),
        !is_progress_line(line@) ==> r is None,
{
    let lowered = to_lowercase(line);
    if str_contains(lowered.as_str(), "tok/s") || str_contains(lowered.as_str(), "tokens/s")
        || str_contains(lowered.as_str(), "ms/token") {
        Some(String::from_str(line))
    } else {
        None
    }
}

/// The supervision mode follows the flags: a dry run only prints; otherwise
/// `--monitor` or `--pressure-events` supervises the memory, else `--capture-output`
/// or `--progress` relays the output, and a run with none of them is started
/// directly.
pub proof fn law_run_mode(a: RunArgsView)
    ensures
        a.dry_run ==> planned_mode(a) == RunMode::DryRun,
        (!a.dry_run && (a.monitor || a.pressure_events)) ==> planned_mode(a) == RunMode::Monitor,
        (!a.dry_run && !a.monitor && !a.pressure_events && (a.capture_output || a.progress))
            ==> planned_mode(a) == RunMode::Capture,
        (!a.dry_run && !a.monitor && !a.pressure_events && !a.capture_output && !a.progress)
            ==> planned_mode(a) == RunMode::Direct,
{
}

} // verus!
