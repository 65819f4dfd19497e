use llm_manager::llm_backend::RunConfig;
use llm_manager::ollama_config::parse_modelfile;
use llm_manager::profile::{
    parse_profile, parse_string, profile_file_name, profile_from_contents, strip_comments,
    unescape_string, Profile,
};

fn empty_config() -> RunConfig {
    RunConfig {
        runtime: String::new(),
        model: None,
        context_length: None,
        max_tokens: None,
        threads: None,
        gpu_layers: None,
        cache_type_k: None,
        cache_type_v: None,
        max_model_len: None,
        max_num_seqs: None,
        quantization: None,
        extra_args: Vec::new(),
    }
}

#[test]
fn parse_modelfile_extracts_base_and_params() {
    let contents = r#"
# comment
FROM llama3
PARAMETER num_ctx 4096
PARAMETER num_predict 256
"#;
    let config = parse_modelfile(contents);
    assert_eq!(config.base_model(), Some("llama3"));
    assert_eq!(config.parameter("num_ctx"), Some("4096"));
    assert_eq!(config.parameter("num_predict"), Some("256"));
    assert_eq!(config.context_length(), Some(4096));
    assert_eq!(config.max_tokens(), Some(256));
}

#[test]
fn read_modelfile_ignores_unknown_lines() {
    // The contents that the Modelfile on disk holds.
    let contents = "SYSTEM \"Be helpful\"\nPARAMETER num_ctx 2048\nTEMPLATE \"{{ .Prompt }}\"";
    let config = parse_modelfile(contents);
    assert_eq!(config.context_length(), Some(2048));
}

#[test]
fn modelfile_values_are_joined_and_unquoted() {
    let config = parse_modelfile(
        "FROM   \nPARAMETER stop \"<|end|>\"\nPARAMETER num_ctx 1\nPARAMETER num_ctx  \" 99 \" \nPARAMETER lonely\nFROM base\n",
    );
    assert_eq!(config.base_model(), Some("base"));
    assert_eq!(config.parameter("stop"), Some("<|end|>"));
    assert_eq!(config.parameter("num_ctx"), Some(" 99 "));
    assert_eq!(config.context_length(), Some(99));
    assert_eq!(config.parameter("lonely"), None);
    assert_eq!(config.max_tokens(), None);
}

#[test]
fn parse_and_validate_profile() {
    let input = r#"
            runtime = "llama"
            model = ""
            context_length = 2048
            max_tokens = 128
            threads = 4
            gpu_layers = 2
            precision = "fp16"
        "#;
    let mut profile = parse_profile(input).unwrap();
    profile.validate().unwrap();

    assert_eq!(profile.runtime.as_deref(), Some("llama.cpp"));
    assert!(profile.model.is_none());
    assert_eq!(profile.context_length, Some(2048));
    assert_eq!(profile.max_tokens, Some(128));
    assert_eq!(profile.threads, Some(4));
    assert_eq!(profile.gpu_layers, Some(2));
    assert_eq!(profile.precision.as_deref(), Some("fp16"));
}

#[test]
fn invalid_runtime_rejected() {
    let input = r#"runtime = "unknown""#;
    let mut profile = parse_profile(input).unwrap();
    assert!(profile.validate().is_err());
}

#[test]
fn invalid_precision_rejected() {
    let input = r#"precision = "fp64""#;
    let mut profile = parse_profile(input).unwrap();
    assert!(profile.validate().is_err());
}

#[test]
fn empty_values_cleared() {
    let input = r#"
            runtime = ""
            model = ""
            precision = ""
        "#;
    let mut profile = parse_profile(input).unwrap();
    profile.validate().unwrap();
    assert!(profile.runtime.is_none());
    assert!(profile.model.is_none());
    assert!(profile.precision.is_none());
}

#[test]
fn profile_errors_name_the_problem() {
    assert_eq!(
        parse_profile("runtime = \"ollama\"\njust words").err(),
        Some("Invalid profile line 2: just words".to_string())
    );
    assert_eq!(
        parse_profile("threads = many").err(),
        Some("Invalid numeric value: many".to_string())
    );
    assert_eq!(
        profile_from_contents("runtime = \"Unknown\"").err(),
        Some("Unsupported runtime in profile: Unknown".to_string())
    );
    assert_eq!(
        profile_from_contents("context_length = 0").err(),
        Some("context_length must be > 0".to_string())
    );
    assert_eq!(
        profile_from_contents("threads = 0").err(),
        Some("threads must be > 0".to_string())
    );
    assert_eq!(
        profile_from_contents("precision = \"FP64\"").err(),
        Some("Unsupported precision in profile: FP64".to_string())
    );
}

#[test]
fn validation_normalises_and_is_idempotent() {
    let mut p = profile_from_contents("runtime = \" MLC-LLM \" # comment\nprecision = \"INT8\"\nmodel = \"  m.gguf \"")
        .unwrap();
    assert_eq!(p.runtime.as_deref(), Some("mlc"));
    assert_eq!(p.precision.as_deref(), Some("int8"));
    assert_eq!(p.model.as_deref(), Some("m.gguf"));
    p.validate().unwrap();
    assert_eq!(p.runtime.as_deref(), Some("mlc"));
    assert_eq!(p.precision.as_deref(), Some("int8"));
    assert_eq!(p.model.as_deref(), Some("m.gguf"));
}

#[test]
fn strings_and_comments() {
    assert_eq!(strip_comments("a = 1 # note"), "a = 1 ");
    assert_eq!(unescape_string("a\\nb\\tc\\\"d\\\\e\\qf\\"), "a\nb\tc\"d\\e\\qf\\");
    assert_eq!(parse_string("  \"x\\ty\"  "), Ok("x\ty".to_string()));
    assert_eq!(parse_string("  plain  "), Ok("plain".to_string()));
    assert_eq!(profile_file_name("safe"), "safe.toml");
    assert_eq!(profile_file_name("safe.toml"), "safe.toml");
}

#[test]
fn config_values_win_over_profile() {
    let profile = profile_from_contents(
        "runtime = \"ollama\"\nmodel = \"p.gguf\"\ncontext_length = 4096\nthreads = 8\ncache_type_k = \"q8_0\"",
    )
    .unwrap();
    let mut c = empty_config();
    c.model = Some("flag.gguf".to_string());
    c.threads = Some(2);
    profile.apply_to_run_config(&mut c).unwrap();
    assert_eq!(c.runtime, "ollama");
    assert_eq!(c.model.as_deref(), Some("flag.gguf"));
    assert_eq!(c.context_length, Some(4096));
    assert_eq!(c.threads, Some(2));
    assert_eq!(c.cache_type_k.as_deref(), Some("q8_0"));

    let mut big = Profile::default();
    big.context_length = Some(u64::MAX);
    let mut c = empty_config();
    assert_eq!(
        big.apply_to_run_config(&mut c),
        Err("context_length is too large for u32".to_string())
    );
}
