use llm_manager::adjust::{handle_pressure_level, AdjustmentState, PressurePolicy, PressureResponse};
use llm_manager::llm_backend::RunConfig;
use llm_manager::memory_monitor::MemoryPressureLevel;

fn config(model: &str, context_length: Option<u32>, max_tokens: Option<u32>) -> RunConfig {
    RunConfig {
        runtime: "llama.cpp".to_string(),
        model: Some(model.to_string()),
        context_length,
        max_tokens,
        threads: None,
        gpu_layers: None,
        cache_type_k: None,
        cache_type_v: None,
        max_model_len: None,
        max_num_seqs: None,
        quantization: None,
        extra_args: Vec::new(),
    }
}

fn policy() -> PressurePolicy {
    PressurePolicy {
        abort_on_critical: false,
        warning_context_length: None,
        warning_context_step: None,
        warning_context_min: None,
        warning_max_tokens: None,
        warning_threads: None,
        warning_gpu_layers: None,
        warning_model: None,
    }
}

#[test]
fn warning_context_length_updates_config() {
    let mut state = AdjustmentState::new();
    let mut config = config("model.gguf", Some(1024), None);
    let policy = PressurePolicy { warning_context_length: Some(512), ..policy() };

    handle_pressure_level(MemoryPressureLevel::Warning, &policy, &mut state, &mut config).unwrap();

    assert_eq!(config.context_length, Some(512));
}

#[test]
fn warning_context_step_reduces_multiple_times() {
    let mut state = AdjustmentState::new();
    let mut config = config("model.gguf", Some(768), None);
    let policy = PressurePolicy {
        warning_context_step: Some(128),
        warning_context_min: Some(512),
        ..policy()
    };

    handle_pressure_level(MemoryPressureLevel::Warning, &policy, &mut state, &mut config).unwrap();
    assert_eq!(config.context_length, Some(640));

    handle_pressure_level(MemoryPressureLevel::Warning, &policy, &mut state, &mut config).unwrap();
    assert_eq!(config.context_length, Some(512));
}

#[test]
fn warning_model_switch_updates_config() {
    let mut state = AdjustmentState::new();
    let mut config = config("big.gguf", None, None);
    let policy = PressurePolicy { warning_model: Some("small.gguf".to_string()), ..policy() };

    handle_pressure_level(MemoryPressureLevel::Warning, &policy, &mut state, &mut config).unwrap();

    assert_eq!(config.model.as_deref(), Some("small.gguf"));
}

#[test]
fn normal_restores_baseline_config() {
    let mut state = AdjustmentState::new();
    let mut config = config("model.gguf", Some(1024), None);
    let warning = PressurePolicy { warning_context_length: Some(512), ..policy() };

    handle_pressure_level(MemoryPressureLevel::Warning, &warning, &mut state, &mut config).unwrap();
    assert_eq!(config.context_length, Some(512));

    handle_pressure_level(MemoryPressureLevel::Normal, &policy(), &mut state, &mut config).unwrap();

    assert_eq!(config.context_length, Some(1024));
}

#[test]
fn normal_restores_after_model_switch() {
    let mut state = AdjustmentState::new();
    let mut config = config("big.gguf", None, None);
    let warning = PressurePolicy { warning_model: Some("small.gguf".to_string()), ..policy() };

    handle_pressure_level(MemoryPressureLevel::Warning, &warning, &mut state, &mut config).unwrap();
    assert_eq!(config.model.as_deref(), Some("small.gguf"));

    handle_pressure_level(MemoryPressureLevel::Normal, &policy(), &mut state, &mut config).unwrap();

    assert_eq!(config.model.as_deref(), Some("big.gguf"));
}

#[test]
fn normal_restores_after_max_tokens_change() {
    let mut state = AdjustmentState::new();
    let mut config = config("model.gguf", None, Some(256));
    let warning = PressurePolicy { warning_max_tokens: Some(128), ..policy() };

    handle_pressure_level(MemoryPressureLevel::Warning, &warning, &mut state, &mut config).unwrap();
    assert_eq!(config.max_tokens, Some(128));

    handle_pressure_level(MemoryPressureLevel::Normal, &policy(), &mut state, &mut config).unwrap();

    assert_eq!(config.max_tokens, Some(256));
}

#[test]
fn critical_aborts_only_when_asked() {
    let mut state = AdjustmentState::new();
    let mut config = config("model.gguf", Some(1024), None);
    let keep = handle_pressure_level(MemoryPressureLevel::Critical, &policy(), &mut state, &mut config);
    assert_eq!(keep, Ok(PressureResponse::Unchanged));
    assert!(!state.critical_triggered);

    let abort = PressurePolicy { abort_on_critical: true, ..policy() };
    let err = handle_pressure_level(MemoryPressureLevel::Critical, &abort, &mut state, &mut config);
    assert_eq!(err, Err("Aborted on critical memory pressure".to_string()));
    assert!(state.critical_triggered);
    assert_eq!(config.context_length, Some(1024));
}

#[test]
fn responses_say_when_to_restart() {
    let mut state = AdjustmentState::new();
    let mut config = config("model.gguf", Some(1024), None);
    let warning = PressurePolicy { warning_context_length: Some(512), ..policy() };
    let first = handle_pressure_level(MemoryPressureLevel::Warning, &warning, &mut state, &mut config);
    assert_eq!(first, Ok(PressureResponse::Restart));
    let second = handle_pressure_level(MemoryPressureLevel::Warning, &warning, &mut state, &mut config);
    assert_eq!(second, Ok(PressureResponse::Unchanged));
    let normal = handle_pressure_level(MemoryPressureLevel::Normal, &warning, &mut state, &mut config);
    assert_eq!(normal, Ok(PressureResponse::Restart));
    let again = handle_pressure_level(MemoryPressureLevel::Normal, &warning, &mut state, &mut config);
    assert_eq!(again, Ok(PressureResponse::Unchanged));
    assert_eq!(config.context_length, Some(1024));
}

#[test]
fn context_step_stops_at_floor() {
    let mut state = AdjustmentState::new();
    let mut config = config("model.gguf", Some(600), None);
    let step = PressurePolicy {
        warning_context_step: Some(256),
        warning_context_min: Some(512),
        ..policy()
    };
    handle_pressure_level(MemoryPressureLevel::Warning, &step, &mut state, &mut config).unwrap();
    assert_eq!(config.context_length, Some(512));
    let r = handle_pressure_level(MemoryPressureLevel::Warning, &step, &mut state, &mut config);
    assert_eq!(r, Ok(PressureResponse::Unchanged));
    assert_eq!(config.context_length, Some(512));
}

#[test]
fn warning_applies_first_fixed_value_and_keeps_cache_types() {
    let mut state = AdjustmentState::new();
    let mut config = config("model.gguf", Some(1024), Some(256));
    config.cache_type_k = Some("q8_0".to_string());
    config.cache_type_v = Some("q4_0".to_string());
    let warning = PressurePolicy {
        warning_max_tokens: Some(64),
        warning_threads: Some(2),
        warning_gpu_layers: Some(4),
        ..policy()
    };
    handle_pressure_level(MemoryPressureLevel::Warning, &warning, &mut state, &mut config).unwrap();
    assert_eq!(config.max_tokens, Some(64));
    assert_eq!(config.threads, None);
    assert_eq!(config.gpu_layers, None);
    assert_eq!(config.cache_type_k.as_deref(), Some("q8_0"));
    assert_eq!(config.cache_type_v.as_deref(), Some("q4_0"));
}
