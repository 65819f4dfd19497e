use llm_manager::gguf::{parse_metadata, GgufError, GgufValue};

fn push_u32(buf: &mut Vec<u8>, value: u32) {
    buf.extend_from_slice(&value.to_le_bytes());
}

fn push_u64(buf: &mut Vec<u8>, value: u64) {
    buf.extend_from_slice(&value.to_le_bytes());
}

fn push_string(buf: &mut Vec<u8>, value: &str) {
    push_u32(buf, value.len() as u32);
    buf.extend_from_slice(value.as_bytes());
}

fn header(kv_count: u64) -> Vec<u8> {
    let mut buf = Vec::new();
    buf.extend_from_slice(b"GGUF");
    push_u32(&mut buf, 3);
    push_u64(&mut buf, 0);
    push_u64(&mut buf, kv_count);
    buf
}

fn message(r: Result<llm_manager::gguf::GgufMetadata, GgufError>) -> String {
    match r {
        Err(GgufError::Message(m)) => m,
        Err(GgufError::SizeOverflow) => "size overflow".to_string(),
        Ok(_) => "ok".to_string(),
    }
}

#[test]
fn read_minimal_metadata() {
    let mut file = Vec::new();
    file.extend_from_slice(b"GGUF");
    push_u32(&mut file, 2); // version
    push_u64(&mut file, 0); // tensor count
    push_u64(&mut file, 3); // kv count

    push_string(&mut file, "llama.n_layer");
    push_u32(&mut file, 4); // U32
    push_u32(&mut file, 32);

    push_string(&mut file, "llama.hidden_size");
    push_u32(&mut file, 4); // U32
    push_u32(&mut file, 4096);

    push_string(&mut file, "general.architecture");
    push_u32(&mut file, 8); // string
    push_string(&mut file, "llama");

    let metadata = parse_metadata(&file).unwrap();
    assert_eq!(metadata.version, 2);
    assert!(matches!(metadata.get("llama.n_layer"), Some(GgufValue::U32(32))));
    assert!(matches!(metadata.get("llama.hidden_size"), Some(GgufValue::U32(4096))));
    assert!(matches!(
        metadata.get("general.architecture"),
        Some(GgufValue::String(value)) if value == "llama"
    ));
}

#[test]
fn rejects_bad_magic_and_short_header() {
    let mut file = header(0);
    file[0] = b'X';
    assert_eq!(message(parse_metadata(&file)), "Invalid GGUF magic header");
    assert_eq!(
        message(parse_metadata(b"GG")),
        "Failed to read header: failed to fill whole buffer"
    );
}

#[test]
fn rejects_unsupported_value_type() {
    let mut file = header(1);
    push_string(&mut file, "k");
    push_u32(&mut file, 13);
    assert_eq!(message(parse_metadata(&file)), "Unsupported GGUF value type: 13");
}

#[test]
fn truncated_value_names_what_was_read() {
    let mut file = header(1);
    push_string(&mut file, "k");
    push_u32(&mut file, 10); // U64
    push_u32(&mut file, 7); // only four of the eight bytes
    assert_eq!(
        message(parse_metadata(&file)),
        "Failed to read u64: failed to fill whole buffer"
    );
}

#[test]
fn arrays_are_skipped_and_later_keys_read() {
    let mut file = header(3);
    push_string(&mut file, "tokens");
    push_u32(&mut file, 9); // array
    push_u32(&mut file, 8); // of strings
    push_u64(&mut file, 2);
    push_string(&mut file, "a");
    push_string(&mut file, "bc");
    push_string(&mut file, "scores");
    push_u32(&mut file, 9); // array
    push_u32(&mut file, 4); // of u32
    push_u64(&mut file, 2);
    push_u32(&mut file, 1);
    push_u32(&mut file, 2);
    push_string(&mut file, "llama.block_count");
    push_u32(&mut file, 5); // I32
    push_u32(&mut file, 40);
    let metadata = parse_metadata(&file).unwrap();
    assert!(matches!(
        metadata.get("tokens"),
        Some(GgufValue::Array { element_type: 8, count: 2 })
    ));
    assert!(matches!(
        metadata.get("scores"),
        Some(GgufValue::Array { element_type: 4, count: 2 })
    ));
    assert_eq!(metadata.get("llama.block_count").and_then(|v| v.as_u64()), Some(40));
}

#[test]
fn nested_arrays_are_refused() {
    let mut file = header(1);
    push_string(&mut file, "nested");
    push_u32(&mut file, 9);
    push_u32(&mut file, 9);
    push_u64(&mut file, 1);
    assert_eq!(message(parse_metadata(&file)), "Nested arrays in GGUF are not supported");
}

#[test]
fn later_key_wins_and_numbers_convert() {
    let mut file = header(3);
    push_string(&mut file, "n");
    push_u32(&mut file, 4);
    push_u32(&mut file, 1);
    push_string(&mut file, "n");
    push_u32(&mut file, 4);
    push_u32(&mut file, 2);
    push_string(&mut file, "neg");
    push_u32(&mut file, 5); // I32
    push_u32(&mut file, u32::MAX); // -1
    let metadata = parse_metadata(&file).unwrap();
    assert_eq!(metadata.get("n").and_then(|v| v.as_u64()), Some(2));
    assert!(matches!(metadata.get("neg"), Some(GgufValue::I32(-1))));
    assert_eq!(metadata.get("neg").and_then(|v| v.as_u64()), None);
    assert!(metadata.get("missing").is_none());
}

#[test]
fn invalid_utf8_key_reports_decoder_error() {
    let mut file = header(1);
    push_u32(&mut file, 2);
    file.extend_from_slice(&[0xff, 0xfe]);
    assert_eq!(
        message(parse_metadata(&file)),
        "Invalid UTF-8 string: invalid utf-8 sequence of 1 bytes from index 0"
    );
}

#[test]
fn oversized_array_is_a_size_overflow() {
    let mut file = header(1);
    push_string(&mut file, "big");
    push_u32(&mut file, 9); // array
    push_u32(&mut file, 10); // of u64
    push_u64(&mut file, u64::MAX / 4);
    assert!(matches!(parse_metadata(&file), Err(GgufError::SizeOverflow)));
}

#[test]
fn skipping_before_the_start_is_refused() {
    let mut file = header(1);
    push_string(&mut file, "neg");
    push_u32(&mut file, 9); // array
    push_u32(&mut file, 0); // of u8
    push_u64(&mut file, u64::MAX - 1000); // a seek of -1001 bytes
    assert_eq!(
        message(parse_metadata(&file)),
        "Failed to skip bytes: Invalid argument (os error 22)"
    );
}
