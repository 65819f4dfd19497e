use llm_manager::backends::llama_cpp::LlamaCppBackend;
use llm_manager::backends::mlc::MlcBackend;
use llm_manager::backends::ollama::OllamaBackend;
use llm_manager::backends::vllm::VllmBackend;
use llm_manager::llm_backend::{LLMError, RunConfig};
use llm_manager::ollama_config::parse_modelfile;

fn config(runtime: &str, model: Option<&str>) -> RunConfig {
    RunConfig {
        runtime: runtime.to_string(),
        model: model.map(|m| m.to_string()),
        context_length: None,
        max_tokens: None,
        threads: None,
        gpu_layers: None,
        cache_type_k: None,
        cache_type_v: None,
        max_model_len: None,
        max_num_seqs: None,
        quantization: None,
        extra_args: Vec::new(),
    }
}

#[test]
fn builds_llama_command() {
    let backend = LlamaCppBackend::default();
    let config = RunConfig {
        runtime: "llama.cpp".to_string(),
        model: Some("model.gguf".to_string()),
        context_length: Some(1024),
        max_tokens: Some(128),
        threads: Some(4),
        gpu_layers: Some(10),
        cache_type_k: None,
        cache_type_v: None,
        max_model_len: None,
        max_num_seqs: None,
        quantization: None,
        extra_args: vec!["--foo".to_string()],
    };

    let spec = backend.build_command(&config).unwrap();
    assert_eq!(spec.program, "llama-cli");
    assert_eq!(
        spec.args,
        vec![
            "-m",
            "model.gguf",
            "-n",
            "128",
            "-c",
            "1024",
            "--threads",
            "4",
            "--gpu-layers",
            "10",
            "--foo",
        ]
    );
}

#[test]
fn mlc_backend_unimplemented() {
    let backend = MlcBackend::default();
    let config = RunConfig {
        runtime: "mlc".to_string(),
        model: None,
        context_length: None,
        max_tokens: None,
        threads: None,
        gpu_layers: None,
        cache_type_k: None,
        cache_type_v: None,
        max_model_len: None,
        max_num_seqs: None,
        quantization: None,
        extra_args: Vec::new(),
    };

    let err = backend.build_command(&config).unwrap_err();
    assert!(matches!(err, LLMError::UnsupportedOperation(_)));
}

#[test]
fn builds_ollama_command() {
    let backend = OllamaBackend::default();
    let config = RunConfig {
        runtime: "ollama".to_string(),
        model: Some("mistral".to_string()),
        context_length: None,
        max_tokens: None,
        threads: None,
        gpu_layers: None,
        cache_type_k: None,
        cache_type_v: None,
        max_model_len: None,
        max_num_seqs: None,
        quantization: None,
        extra_args: vec!["--verbose".to_string()],
    };

    let spec = backend.build_command(&config, None).unwrap();
    assert_eq!(spec.program, "ollama");
    assert_eq!(spec.args, vec!["run", "mistral", "--verbose"]);
    assert!(spec.env.is_empty());
}

#[test]
fn builds_ollama_command_with_context_env() {
    let backend = OllamaBackend::default();
    let config = RunConfig {
        runtime: "ollama".to_string(),
        model: Some("mistral".to_string()),
        context_length: Some(4096),
        max_tokens: None,
        threads: None,
        gpu_layers: None,
        cache_type_k: None,
        cache_type_v: None,
        max_model_len: None,
        max_num_seqs: None,
        quantization: None,
        extra_args: Vec::new(),
    };

    let spec = backend.build_command(&config, None).unwrap();
    assert_eq!(spec.program, "ollama");
    assert_eq!(spec.args, vec!["run", "mistral"]);
    assert_eq!(
        spec.env,
        vec![("OLLAMA_CONTEXT_LENGTH".to_string(), "4096".to_string())]
    );
}

#[test]
fn uses_modelfile_context_length_when_missing_config() {
    // The Modelfile that the model path names, as read from disk.
    let modelfile = parse_modelfile("FROM llama3\nPARAMETER num_ctx 2048");

    let backend = OllamaBackend::default();
    let config = RunConfig {
        runtime: "ollama".to_string(),
        model: Some("ollama_modelfile.txt".to_string()),
        context_length: None,
        max_tokens: None,
        threads: None,
        gpu_layers: None,
        cache_type_k: None,
        cache_type_v: None,
        max_model_len: None,
        max_num_seqs: None,
        quantization: None,
        extra_args: Vec::new(),
    };

    let spec = backend.build_command(&config, Some(&modelfile)).unwrap();
    assert_eq!(
        spec.env,
        vec![("OLLAMA_CONTEXT_LENGTH".to_string(), "2048".to_string())]
    );
}

#[test]
fn vllm_backend_builds_command() {
    let backend = VllmBackend::default();
    let config = RunConfig {
        runtime: "vllm".to_string(),
        model: Some("mistral".to_string()),
        context_length: Some(4096),
        max_tokens: None,
        threads: None,
        gpu_layers: None,
        cache_type_k: None,
        cache_type_v: None,
        max_model_len: None,
        max_num_seqs: Some(8),
        quantization: Some("awq".to_string()),
        extra_args: Vec::new(),
    };

    let spec = backend.build_command(&config).unwrap();
    assert_eq!(spec.program, "python");
    assert!(spec.args.contains(&"--model".to_string()));
    assert!(spec.args.contains(&"mistral".to_string()));
    assert!(spec.args.contains(&"--max-model-len".to_string()));
    assert!(spec.args.contains(&"4096".to_string()));
    assert!(spec.args.contains(&"--max-num-seqs".to_string()));
    assert!(spec.args.contains(&"8".to_string()));
    assert!(spec.args.contains(&"--quantization".to_string()));
    assert!(spec.args.contains(&"awq".to_string()));
}

#[test]
fn llama_command_includes_cache_types_before_extra_args() {
    let backend = LlamaCppBackend::default();
    let mut c = config("llama.cpp", Some("m.gguf"));
    c.cache_type_k = Some("q8_0".to_string());
    c.cache_type_v = Some("q4_0".to_string());
    c.extra_args = vec!["--x".to_string()];
    let spec = backend.build_command(&c).unwrap();
    assert_eq!(
        spec.args,
        vec!["-m", "m.gguf", "--cache-type-k", "q8_0", "--cache-type-v", "q4_0", "--x"]
    );
    assert!(spec.env.is_empty());
}

#[test]
fn backends_require_a_model() {
    let llama = LlamaCppBackend::default().build_command(&config("llama.cpp", None));
    assert!(matches!(llama, Err(LLMError::MissingModel { runtime: "llama.cpp" })));
    let ollama = OllamaBackend::default().build_command(&config("ollama", None), None);
    assert!(matches!(ollama, Err(LLMError::MissingModel { runtime: "ollama" })));
    let vllm = VllmBackend::default().build_command(&config("vllm", None));
    assert!(matches!(vllm, Err(LLMError::MissingModel { runtime: "vllm" })));
    let message = llama.unwrap_err().message();
    assert_eq!(message, "Missing --model for llama.cpp runtime. Provide --model <path>");
}

#[test]
fn vllm_args_in_order_with_explicit_max_model_len() {
    let mut c = config("vllm", Some("mistral"));
    c.context_length = Some(4096);
    c.max_model_len = Some(2048);
    c.quantization = Some("   ".to_string());
    c.extra_args = vec!["--seed".to_string(), "1".to_string()];
    let spec = VllmBackend::default().build_command(&c).unwrap();
    assert_eq!(
        spec.args,
        vec![
            "-m",
            "vllm.entrypoints.openai.api_server",
            "--model",
            "mistral",
            "--max-model-len",
            "2048",
            "--seed",
            "1"
        ]
    );
}

#[test]
fn ollama_config_context_wins_over_modelfile() {
    let modelfile = parse_modelfile("FROM llama3\nPARAMETER num_ctx 2048");
    let mut c = config("ollama", Some("llama3"));
    c.context_length = Some(8192);
    let spec = OllamaBackend::default().build_command(&c, Some(&modelfile)).unwrap();
    assert_eq!(spec.env, vec![("OLLAMA_CONTEXT_LENGTH".to_string(), "8192".to_string())]);
}

#[test]
fn error_messages_describe_each_error() {
    assert_eq!(
        LLMError::LaunchFailed { program: "llama-cli".to_string(), source: "not found".to_string() }
            .message(),
        "Failed to start llama-cli: not found"
    );
    assert_eq!(LLMError::ProcessExit { code: -1 }.message(), "Process exited with status -1");
    assert_eq!(LLMError::ProcessExit { code: 3 }.message(), "Process exited with status 3");
    assert_eq!(LLMError::UnsupportedOperation("nope").message(), "nope");
    assert_eq!(LLMError::InvalidConfig("bad".to_string()).message(), "bad");
}
