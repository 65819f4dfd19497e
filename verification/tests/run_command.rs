use llm_manager::backends::llama_cpp::LlamaCppBackend;
use llm_manager::cli::ArgError;
use llm_manager::commands::dispatch::{exit_error, select_command, Command};
use llm_manager::commands::run_args::{parse_run_args, RunArgs};
use llm_manager::commands::run_plan::{
    detect_progress, dry_run_line, plan_run, poll_interval_ms, run_thresholds, select_runtime,
    RunMode, Runtime,
};
use llm_manager::llm_backend::{CommandSpec, LLMError};
use llm_manager::profile::profile_from_contents;

fn args(list: &[&str]) -> Vec<String> {
    list.iter().map(|s| s.to_string()).collect()
}

fn run_args(list: &[&str]) -> RunArgs {
    match parse_run_args(&args(list)) {
        Ok(a) => a,
        Err(ArgError::Message(m)) => panic!("arguments refused: {m}"),
        Err(ArgError::SizeOverflow) => panic!("arguments refused: overflow"),
    }
}

fn run_error(list: &[&str]) -> String {
    match parse_run_args(&args(list)) {
        Ok(_) => "accepted".to_string(),
        Err(ArgError::Message(m)) => m,
        Err(ArgError::SizeOverflow) => "overflow".to_string(),
    }
}

#[test]
fn zero_values_are_refused() {
    assert_eq!(
        run_error(&["--model", "model.gguf", "--context-length", "0", "--dry-run"]),
        "--context-length must be > 0"
    );
    assert_eq!(run_error(&["--model", "model.gguf", "--threads", "0"]), "--threads must be > 0");
    assert_eq!(
        run_error(&["--monitor-interval-ms", "0"]),
        "--monitor-interval-ms must be > 0"
    );
    assert_eq!(run_error(&["--monitor-warning", "0"]), "--monitor-warning must be > 0");
    assert_eq!(
        run_error(&["--monitor-warning", "1xb"]),
        "Unknown unit for --monitor-warning: xb"
    );
    assert_eq!(run_error(&["--max-tokens", "x"]), "Invalid numeric value for --max-tokens: x");
    assert_eq!(run_error(&["--wat"]), "Unknown flag for run: --wat");
    assert_eq!(run_error(&["--runtime"]), "Missing value for --runtime");
}

#[test]
fn extra_args_follow_the_separator() {
    let a = run_args(&["--model", "m", "free", "--", "--temp", "0.7"]);
    assert_eq!(a.extra_args, vec!["free", "--temp", "0.7"]);
    assert_eq!(a.monitor_interval_ms, 1000);
    assert!(run_args(&["--bogus", "-h"]).help);
    assert_eq!(run_args(&["--max-tokens", "0"]).max_tokens, Some(0));
    assert_eq!(run_args(&["--monitor-critical", "0"]).monitor_critical, Some(0));
    assert_eq!(run_args(&["--monitor-critical", " 2MB"]).monitor_critical, Some(2 * 1024 * 1024));
}

#[test]
fn dry_run_line_includes_cache_types() {
    let a = run_args(&[
        "--model",
        "model.gguf",
        "--cache-type-k",
        "q8_0",
        "--cache-type-v",
        "q4_0",
        "--dry-run",
    ]);
    let plan = match plan_run(&a, None) {
        Ok(p) => p,
        Err(e) => panic!("{e}"),
    };
    assert_eq!(plan.runtime, Runtime::LlamaCpp);
    assert_eq!(plan.mode, RunMode::DryRun);
    assert_eq!(plan.config.runtime, "llama.cpp");
    let spec = LlamaCppBackend::default().build_command(&plan.config).unwrap();
    let line = dry_run_line(&spec);
    assert_eq!(line, "llama-cli -m model.gguf --cache-type-k q8_0 --cache-type-v q4_0");
    assert!(line.contains("--cache-type-k q8_0"));
    assert!(line.contains("--cache-type-v q4_0"));
}

#[test]
fn dry_run_line_of_program_alone_ends_with_space() {
    let spec = CommandSpec { program: "ollama".to_string(), args: Vec::new(), env: Vec::new() };
    assert_eq!(dry_run_line(&spec), "ollama ");
}

#[test]
fn plan_applies_profile_and_modes() {
    let profile = profile_from_contents(
        "runtime = \"ollama\"\nmodel = \"p.gguf\"\nwarning_model = \"small\"\ncontext_length = 4096",
    )
    .unwrap();
    let a = run_args(&["--threads", "2", "--progress", "--pressure-events"]);
    let plan = match plan_run(&a, Some(&profile)) {
        Ok(p) => p,
        Err(e) => panic!("{e}"),
    };
    assert_eq!(plan.runtime, Runtime::Ollama);
    assert_eq!(plan.mode, RunMode::Monitor);
    assert!(plan.capture_output);
    assert_eq!(plan.config.model.as_deref(), Some("p.gguf"));
    assert_eq!(plan.config.context_length, Some(4096));
    assert_eq!(plan.config.threads, Some(2));
    assert_eq!(plan.policy.warning_model.as_deref(), Some("small"));

    let flagged = run_args(&["--warning-model", "tiny", "--capture-output"]);
    let plan = match plan_run(&flagged, Some(&profile)) {
        Ok(p) => p,
        Err(e) => panic!("{e}"),
    };
    assert_eq!(plan.policy.warning_model.as_deref(), Some("tiny"));
    assert_eq!(plan.mode, RunMode::Capture);

    let direct = match plan_run(&run_args(&["--runtime", "vllm"]), None) {
        Ok(p) => p,
        Err(e) => panic!("{e}"),
    };
    assert_eq!(direct.mode, RunMode::Direct);
    assert_eq!(direct.runtime, Runtime::Vllm);
}

#[test]
fn unsupported_runtime_is_refused() {
    match plan_run(&run_args(&["--runtime", "tgi"]), None) {
        Err(e) => assert_eq!(e, "Unsupported runtime: tgi"),
        Ok(_) => panic!("accepted"),
    }
    assert_eq!(select_runtime("llama"), Ok(Runtime::LlamaCpp));
    assert_eq!(select_runtime("mlc-llm"), Ok(Runtime::Mlc));
}

#[test]
fn monitor_thresholds_and_interval() {
    let t = run_thresholds(None, None).unwrap();
    assert_eq!(t.warning_bytes, 536_870_912);
    assert_eq!(t.critical_bytes, 1_073_741_824);
    assert_eq!(
        run_thresholds(Some(2048), Some(1024)).err(),
        Some("Monitor critical threshold must be >= warning threshold".to_string())
    );
    assert_eq!(poll_interval_ms(10), 100);
    assert_eq!(poll_interval_ms(1000), 1000);
}

#[test]
fn progress_lines_are_detected() {
    assert_eq!(detect_progress("eval: 12.5 Tok/S"), Some("eval: 12.5 Tok/S".to_string()));
    assert_eq!(detect_progress("40 ms/token"), Some("40 ms/token".to_string()));
    assert_eq!(detect_progress("3 TOKENS/S"), Some("3 TOKENS/S".to_string()));
    assert_eq!(detect_progress("loading model"), None);
}

#[test]
fn commands_are_selected_by_name() {
    assert_eq!(select_command("kv-inspect"), Ok(Command::KvInspect));
    assert_eq!(select_command("--help"), Ok(Command::Help));
    assert_eq!(select_command("explode"), Err("Unknown command: explode".to_string()));
    assert!(matches!(exit_error(None), LLMError::ProcessExit { code: -1 }));
    assert_eq!(exit_error(Some(3)).message(), "Process exited with status 3");
}
