use tokensmith::error::TokensmithError;
use tokensmith::registry::{ModelEntry, QuantizationInfo, Registry};

fn entry(id: &str, format: &str, downloads: usize, quants: usize) -> ModelEntry {
    ModelEntry {
        id: id.to_string(),
        name: "n".to_string(),
        task: "chat".to_string(),
        size_class: "7b".to_string(),
        format: format.to_string(),
        downloads: (0..downloads).map(|i| format!("u{i}")).collect(),
        sha256: Some("abc".to_string()),
        quantizations: (0..quants)
            .map(|i| QuantizationInfo { name: format!("q{i}"), approx_size_bytes: i as u64 })
            .collect(),
        default_context: 4096,
        max_context: 8192,
    }
}

fn config_message(r: Result<(), TokensmithError>) -> String {
    match r {
        Err(TokensmithError::Config(m)) => m,
        _ => panic!("expected a configuration error"),
    }
}

#[test]
fn validate_accepts_sound_registry() {
    let reg = Registry { models: vec![entry("a", "gguf", 1, 1), entry("b", "gguf", 2, 3)] };
    assert!(reg.validate().is_ok());
}

#[test]
fn validate_reports_first_problem() {
    assert_eq!(config_message(Registry { models: vec![] }.validate()), "registry has no models");
    assert_eq!(
        config_message(Registry { models: vec![entry(" \t", "gguf", 1, 1)] }.validate()),
        "model id is empty"
    );
    assert_eq!(
        config_message(Registry { models: vec![entry("a", "ggml", 1, 1)] }.validate()),
        "model a has unsupported format ggml"
    );
    assert_eq!(
        config_message(Registry { models: vec![entry("a", "gguf", 0, 1)] }.validate()),
        "model a has no downloads"
    );
    assert_eq!(
        config_message(Registry { models: vec![entry("a", "gguf", 1, 0)] }.validate()),
        "model a has no quantization entries"
    );
    assert_eq!(
        config_message(Registry { models: vec![entry("a", "gguf", 1, 1), entry("b", "gguf", 0, 0)] }.validate()),
        "model b has no downloads"
    );
    let err = Registry { models: vec![] }.validate().unwrap_err();
    assert_eq!(err.to_string(), "configuration error: registry has no models");
    assert_eq!(err.message(), "registry has no models");
}

#[test]
fn unicode_blank_id_is_empty() {
    assert_eq!(
        config_message(Registry { models: vec![entry("\u{3000}\u{a0}", "gguf", 1, 1)] }.validate()),
        "model id is empty"
    );
}

#[test]
fn by_id_finds_first_match() {
    let mut second = entry("a", "gguf", 2, 2);
    second.name = "second".to_string();
    let reg = Registry { models: vec![entry("x", "gguf", 1, 1), entry("a", "gguf", 1, 1), second] };
    assert_eq!(reg.by_id("a").unwrap().name, "n");
    assert!(reg.by_id("missing").is_none());
    let copy = reg.clone();
    assert_eq!(copy.models.len(), 3);
    assert_eq!(copy.models[2].name, "second");
}
