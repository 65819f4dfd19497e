use llm_manager::cli::ArgError;
use llm_manager::commands::kv_args::parse_kv_inspect_args;
use llm_manager::commands::kv_report::{
    bytes_per_element, compute_kv_sizes, context_chart_points, context_limit, kv_json, kv_report, kv_settings,
    layer_view, model_shape, omitted_layers, KvSettings,
};
use llm_manager::commands::vm_stat::{available_ram_bytes, extract_first_number, vm_stat_counts};
use llm_manager::gguf::{GgufMetadata, GgufValue};
use llm_manager::profile::Profile;

fn args(list: &[&str]) -> Vec<String> {
    list.iter().map(|s| s.to_string()).collect()
}

fn metadata(entries: Vec<(&str, GgufValue)>) -> GgufMetadata {
    GgufMetadata {
        version: 3,
        kv: entries.into_iter().map(|(k, v)| (k.to_string(), v)).collect(),
    }
}

fn llama_metadata() -> GgufMetadata {
    metadata(vec![
        ("general.architecture", GgufValue::String("llama".to_string())),
        ("llama.embedding_length", GgufValue::U32(4096)),
        ("llama.block_count", GgufValue::U32(32)),
        ("llama.attention.head_count", GgufValue::U32(32)),
        ("llama.attention.head_count_kv", GgufValue::U32(8)),
    ])
}

fn settings(context_length: u64, precision: &str) -> KvSettings {
    KvSettings {
        model: "model.gguf".to_string(),
        context_length,
        precision: precision.to_string(),
    }
}

#[test]
fn compute_kv_sizes_fp16_example() {
    let sizes = compute_kv_sizes(4096, 32, 2048, 2).unwrap();
    assert_eq!(sizes.total_kv, 1_073_741_824);
    assert_eq!(sizes.per_token_total, 524_288);
}

#[test]
fn kv_sizes_are_consistent() {
    let s = compute_kv_sizes(4096, 32, 2048, 2).unwrap();
    assert_eq!(s.kv_per_token_per_layer, 16_384);
    assert_eq!(s.per_layer_k, 16_777_216);
    assert_eq!(s.per_layer_total, 2 * s.per_layer_k);
    assert_eq!(s.per_layer_total, s.kv_per_token_per_layer * 2048);
    assert_eq!(s.total_kv, 32 * s.per_layer_total);
    assert_eq!(s.total_kv, s.per_token_total * 2048);
}

#[test]
fn kv_size_overflows_are_reported() {
    let e = compute_kv_sizes(u64::MAX, 1, 1, 2).err().unwrap();
    assert_eq!(e, "Overflow computing per-token KV size");
    let e = compute_kv_sizes(1 << 40, 1, 1 << 30, 2).err().unwrap();
    assert_eq!(e, "Overflow computing per-layer K size");
    let e = compute_kv_sizes(1 << 20, 1, 1 << 43, 1).err().unwrap();
    assert_eq!(e, "Overflow computing per-layer total size");
    let e = compute_kv_sizes(1 << 20, 1 << 50, 1, 1).err().unwrap();
    assert_eq!(e, "Overflow computing per-token KV total");
    let e = compute_kv_sizes(1 << 20, 1 << 20, 1 << 30, 1).err().unwrap();
    assert_eq!(e, "Overflow computing total KV size");
}

#[test]
fn precisions_map_to_element_sizes() {
    assert_eq!(bytes_per_element("fp16"), Ok(2));
    assert_eq!(bytes_per_element("fp32"), Ok(4));
    assert_eq!(bytes_per_element("int8"), Ok(1));
    assert_eq!(bytes_per_element("fp64"), Err("Unsupported precision: fp64".to_string()));
}

#[test]
fn shape_reads_first_usable_keys() {
    let m = metadata(vec![
        ("llama.hidden_size", GgufValue::I32(-5)),
        ("llama.n_embd", GgufValue::U16(2048)),
        ("llama.n_layer", GgufValue::U64(22)),
        ("general.architecture", GgufValue::String(String::new())),
        ("model.architecture", GgufValue::String("mistral".to_string())),
    ]);
    let shape = model_shape(&m).unwrap();
    assert_eq!(shape.hidden_size, 2048);
    assert_eq!(shape.num_layers, 22);
    assert_eq!(shape.architecture.as_deref(), Some("mistral"));
    assert_eq!(shape.head_count, None);
    assert_eq!(shape.head_count_kv, None);

    let missing_hidden = metadata(vec![("llama.block_count", GgufValue::U32(2))]);
    assert_eq!(
        model_shape(&missing_hidden).err(),
        Some("Missing hidden size in GGUF metadata".to_string())
    );
    let missing_layers = metadata(vec![("llama.embedding_length", GgufValue::U32(2))]);
    assert_eq!(
        model_shape(&missing_layers).err(),
        Some("Missing layer count in GGUF metadata".to_string())
    );
}

#[test]
fn layer_listing_elides_the_middle() {
    assert_eq!(layer_view(3), vec![Some(1), Some(2), Some(3)]);
    assert_eq!(layer_view(16).len(), 16);
    assert_eq!(
        layer_view(32),
        vec![
            Some(1),
            Some(2),
            Some(3),
            Some(4),
            Some(5),
            Some(6),
            Some(7),
            Some(8),
            None,
            Some(29),
            Some(30),
            Some(31),
            Some(32)
        ]
    );
    assert_eq!(omitted_layers(16), 0);
    assert_eq!(omitted_layers(32), 20);
}

#[test]
fn context_chart_steps_to_the_context_length() {
    assert_eq!(
        context_chart_points(2048, 10, 512),
        vec![(512, 5120), (1024, 10240), (1536, 15360), (2048, 20480)]
    );
    assert_eq!(context_chart_points(1000, 1, 512), vec![(512, 512)]);
    assert_eq!(context_chart_points(0, 3, 0), vec![(1, 3)]);
    assert_eq!(context_chart_points(4, u64::MAX, 2), vec![(2, u64::MAX), (4, u64::MAX)]);
}

#[test]
fn settings_take_profile_defaults() {
    let parsed = match parse_kv_inspect_args(&args(&["--profile", "p"])) {
        Ok(a) => a,
        Err(_) => panic!("arguments refused"),
    };
    let missing = kv_settings(&parsed, None);
    assert_eq!(missing.err(), Some("Missing --model for kv-inspect".to_string()));

    let mut profile = Profile::default();
    profile.model = Some("from_profile.gguf".to_string());
    profile.context_length = Some(4096);
    profile.precision = Some("FP32".to_string());
    let s = kv_settings(&parsed, Some(&profile)).unwrap();
    assert_eq!(s.model, "from_profile.gguf");
    assert_eq!(s.context_length, 4096);
    assert_eq!(s.precision, "fp32");

    let flags = match parse_kv_inspect_args(&args(&["--model", "m.gguf", "--context-length", "512"])) {
        Ok(a) => a,
        Err(_) => panic!("arguments refused"),
    };
    let s = kv_settings(&flags, Some(&profile)).unwrap();
    assert_eq!(s.model, "m.gguf");
    assert_eq!(s.context_length, 512);
    assert_eq!(s.precision, "fp32");
    let s = kv_settings(&flags, None).unwrap();
    assert_eq!(s.precision, "fp16");
}

#[test]
fn report_errors_come_in_order() {
    let r = kv_report(settings(2048, "fp64"), &llama_metadata());
    assert_eq!(r.err(), Some("Unsupported precision: fp64".to_string()));
    let r = kv_report(settings(2048, "fp64"), &metadata(vec![]));
    assert_eq!(r.err(), Some("Missing hidden size in GGUF metadata".to_string()));
}

#[test]
fn json_report_has_expected_fields() {
    let report = kv_report(settings(2048, "fp16"), &llama_metadata()).unwrap();
    let json = kv_json(&report, Some(1_073_741_824), None, None, false);
    assert_eq!(
        json,
        "{\"model\":\"model.gguf\",\"architecture\":\"llama\",\"hidden_size\":4096,\
\"head_count\":32,\"head_count_kv\":8,\"num_layers\":32,\"context_length\":2048,\
\"precision\":\"fp16\",\"bytes_per_element\":2,\"layer_k_bytes\":16777216,\
\"layer_v_bytes\":16777216,\"layer_total_bytes\":33554432,\"kv_per_token_per_layer\":16384,\
\"kv_per_token_total\":524288,\"total_kv_bytes\":1073741824,\
\"available_ram_bytes\":1073741824,\"max_tokens_estimate\":2048}"
    );
}

#[test]
fn json_report_includes_charts() {
    let mut m = llama_metadata();
    m.kv.push(("llama.block_count".to_string(), GgufValue::U32(2)));
    let report = kv_report(settings(1024, "int8"), &m).unwrap();
    let ratios = vec!["0.5000".to_string(), "1.0000".to_string()];
    let json = kv_json(&report, Some(16_777_216), Some(512), Some(&ratios), true);
    assert!(json.contains(
        "\"context_chart\":[{\"context_length\":512,\"total_kv_bytes\":8388608,\"ratio\":0.5000},\
{\"context_length\":1024,\"total_kv_bytes\":16777216,\"ratio\":1.0000}],"
    ));
    assert!(json.ends_with(
        "\"layer_chart\":[{\"layer\":1,\"total_kv_bytes\":8388608},\
{\"layer\":2,\"total_kv_bytes\":8388608}]}"
    ));

    let plain = kv_json(&report, None, Some(1024), None, false);
    assert!(plain.ends_with(
        "\"context_chart\":[{\"context_length\":1024,\"total_kv_bytes\":16777216}]}"
    ));
}

#[test]
fn escapes_model_path_in_json() {
    let mut s = settings(16, "fp16");
    s.model = "dir\\\"m\".gguf".to_string();
    let report = kv_report(s, &llama_metadata()).unwrap();
    let json = kv_json(&report, None, None, None, false);
    assert!(json.starts_with("{\"model\":\"dir\\\\\\\"m\\\".gguf\","));
}

#[test]
fn kv_inspect_flag_errors() {
    match parse_kv_inspect_args(&args(&["--context-step", "0"])) {
        Err(ArgError::Message(m)) => assert_eq!(m, "--context-step must be > 0"),
        _ => panic!("expected an error"),
    }
    match parse_kv_inspect_args(&args(&["--bogus"])) {
        Err(ArgError::Message(m)) => assert_eq!(m, "Unknown flag for kv-inspect: --bogus"),
        _ => panic!("expected an error"),
    }
    match parse_kv_inspect_args(&args(&["--available-ram", "4xb"])) {
        Err(ArgError::Message(m)) => assert_eq!(m, "Unknown unit for --available-ram: xb"),
        _ => panic!("expected an error"),
    }
    match parse_kv_inspect_args(&args(&["--model"])) {
        Err(ArgError::Message(m)) => assert_eq!(m, "Missing value for --model"),
        _ => panic!("expected an error"),
    }
    match parse_kv_inspect_args(&args(&["--available-ram", "99999999999tb"])) {
        Err(ArgError::SizeOverflow) => {}
        _ => panic!("expected an overflow"),
    }
    match parse_kv_inspect_args(&args(&["--available-ram", " 4GB ", "--layers", "--help"])) {
        Ok(a) => assert!(a.help),
        Err(_) => panic!("help refused"),
    }
    match parse_kv_inspect_args(&args(&["--available-ram", " 4GB ", "--layers"])) {
        Ok(a) => {
            assert_eq!(a.available_ram, Some(4 * 1024 * 1024 * 1024));
            assert!(a.show_layers);
            assert_eq!(a.context_step, 512);
        }
        Err(_) => panic!("arguments refused"),
    }
}

#[test]
fn first_number_joins_all_digits() {
    assert_eq!(extract_first_number("Pages free:    12345."), Some(12345));
    assert_eq!(extract_first_number("page size of 16384 bytes"), Some(16384));
    assert_eq!(extract_first_number("a1b2c3"), Some(123));
    assert_eq!(extract_first_number("none"), None);
    assert_eq!(extract_first_number("99999999999999999999999"), None);
}

#[test]
fn vm_stat_output_gives_available_ram() {
    let out = "Mach Virtual Memory Statistics: (page size of 16384 bytes)\n\
Pages free:                               100.\n\
Pages active:                             999.\n\
Pages inactive:                            50.\n\
Pages speculative:                         10.\n";
    let counts = vm_stat_counts(out);
    assert_eq!(counts.page_size, Some(16384));
    assert_eq!(counts.free_pages, 100);
    assert_eq!(counts.inactive_pages, 50);
    assert_eq!(counts.speculative_pages, 10);
    assert_eq!(available_ram_bytes(&counts), 160 * 16384);

    let no_page_size = vm_stat_counts("Pages free: 2.\r\n");
    assert_eq!(no_page_size.page_size, None);
    assert_eq!(available_ram_bytes(&no_page_size), 2 * 4096);
}

#[test]
fn context_limit_is_first_point_filling_memory() {
    let points = context_chart_points(2048, 10, 512);
    assert_eq!(context_limit(&points, 10240), Some(1024));
    assert_eq!(context_limit(&points, 1), Some(512));
    assert_eq!(context_limit(&points, 20481), None);
}
