use tokensmith::cli::Task;
use tokensmith::error::TokensmithError;
use tokensmith::heuristics::{choose_model, choose_quant_and_ctx};
use tokensmith::memory::MemoryConfig;
use tokensmith::profiler::HardwareProfile;
use tokensmith::profiles::Mode;
use tokensmith::registry::{ModelEntry, QuantizationInfo, Registry};
use tokensmith::selector::{recommend, recommend_fits, threads_for};

const GIB: u64 = 1024 * 1024 * 1024;

fn model(id: &str, task: &str, size: &str, quants: &[(&str, u64)]) -> ModelEntry {
    ModelEntry {
        id: id.to_string(),
        name: id.to_uppercase(),
        task: task.to_string(),
        size_class: size.to_string(),
        format: "gguf".to_string(),
        downloads: vec![format!("https://example.invalid/{id}.gguf")],
        sha256: None,
        quantizations: quants
            .iter()
            .map(|(n, b)| QuantizationInfo { name: n.to_string(), approx_size_bytes: *b })
            .collect(),
        default_context: 4096,
        max_context: 32768,
    }
}

fn hw(total: u64, avail: Option<u64>, perf: Option<u32>, logical: u32) -> HardwareProfile {
    HardwareProfile {
        os: "macos".to_string(),
        arch: "aarch64".to_string(),
        cpu_brand: "Test CPU".to_string(),
        logical_cores: logical,
        physical_cores: Some(logical),
        performance_cores: perf,
        efficiency_cores: None,
        total_mem_bytes: total,
        available_mem_bytes: avail,
        has_gpu_accel: true,
        gpu_backend: Some("metal".to_string()),
    }
}

fn registry() -> Registry {
    Registry {
        models: vec![
            model("small-code", "code", "1.5b", &[("q4_k_m", GIB), ("q8_0", 2 * GIB)]),
            model("mid-code", "code", "7b", &[("q4_k_m", 4 * GIB), ("q5_k_m", 5 * GIB)]),
            model("big-code", "code", "14b", &[("q4_k_m", 9 * GIB), ("q5_k_m", 10 * GIB)]),
            model("llama-8b", "chat", "8b", &[("q4_k_m", 5 * GIB)]),
            model("other-mid-code", "code", "7b", &[("q4_k_m", 4 * GIB)]),
        ],
    }
}

#[test]
fn candidates_largest_first_ties_reversed() {
    let reg = registry();
    let ids: Vec<&str> = choose_model(&reg, Task::Code).iter().map(|m| m.id.as_str()).collect();
    assert_eq!(ids, vec!["big-code", "other-mid-code", "mid-code", "small-code"]);
    let chat: Vec<&str> = choose_model(&reg, Task::Chat).iter().map(|m| m.id.as_str()).collect();
    assert_eq!(chat, vec!["llama-8b"]);
}

#[test]
fn quant_and_context_follow_the_mode() {
    let reg = registry();
    let cfg = MemoryConfig::default();
    // 64 GiB total, 40 GiB available: the budget is 40 GiB.
    let h = hw(64 * GIB, Some(40 * GIB), Some(8), 12);
    let (q, ctx, reasons) = choose_quant_and_ctx(&reg.models[2], Mode::Balanced, &h, &cfg).unwrap();
    assert_eq!(q, "q5_k_m");
    // 10 GiB + 2 MiB * 16384 + 1 GiB = 43 GiB does not fit; 8192 gives 27 GiB.
    assert_eq!(ctx, 8192);
    assert_eq!(reasons, vec![
        "usable memory budget: 40.00 GiB".to_string(),
        "selected quant q5_k_m at context 8192".to_string(),
    ]);
}

#[test]
fn quant_missing_from_model_is_skipped() {
    let reg = registry();
    let cfg = MemoryConfig::default();
    let h = hw(64 * GIB, Some(40 * GIB), None, 12);
    // Quality prefers q8_0, q6_k, q5_k_m; the mid model only has q5_k_m of those.
    let (q, ctx, _) = choose_quant_and_ctx(&reg.models[1], Mode::Quality, &h, &cfg).unwrap();
    assert_eq!(q, "q5_k_m");
    assert_eq!(ctx, 32768);
}

#[test]
fn falls_back_to_small_contexts() {
    let cfg = MemoryConfig::default();
    let m = model("m", "code", "7b", &[("q4_k_m", GIB)]);
    // budget 3 GiB: 1 GiB + 1 GiB overhead leaves 1 GiB of KV cache: 1023 tokens at 1 MiB.
    let h = hw(7 * GIB, None, None, 4);
    let (_, ctx, _) = choose_quant_and_ctx(&m, Mode::Fast, &h, &cfg).unwrap();
    assert_eq!(ctx, 512);
    let h = hw(7 * GIB + 1, None, None, 4);
    let (_, ctx, _) = choose_quant_and_ctx(&m, Mode::Fast, &h, &cfg).unwrap();
    assert_eq!(ctx, 1024);
    let h = hw(6 * GIB, None, None, 4);
    assert!(choose_quant_and_ctx(&m, Mode::Fast, &h, &cfg).is_none());
}

#[test]
fn budget_reason_matches_float_formatting() {
    let cfg = MemoryConfig { safety_buffer_bytes: 0, ..MemoryConfig::default() };
    let m = model("m", "code", "7b", &[("q4_k_m", 0)]);
    for total in [
        3 * GIB,
        3 * GIB + 12345,
        134217728 + 2 * GIB,
        5 * GIB / 3,
        u64::MAX,
        (1u64 << 53) + 1,
        (1u64 << 60) + (1u64 << 8) + 3,
        123_456_789_012,
    ] {
        let h = hw(total, None, None, 4);
        let (_, _, reasons) = choose_quant_and_ctx(&m, Mode::Fast, &h, &cfg).unwrap();
        let expected = format!("usable memory budget: {:.2} GiB", total as f64 / 1024_f64.powi(3));
        assert_eq!(reasons[0], expected);
    }
}

#[test]
fn recommend_picks_largest_fitting_model() {
    let reg = registry();
    let cfg = MemoryConfig::default();
    let h = hw(64 * GIB, Some(40 * GIB), Some(8), 12);
    assert!(recommend_fits(&reg, &h, Task::Code, Mode::Fast, &cfg));
    let sel = recommend(&reg, &h, Task::Code, Mode::Fast, &cfg).ok().unwrap();
    assert_eq!(sel.model.id, "big-code");
    assert_eq!(sel.quantization, "q4_k_m");
    assert_eq!(sel.context_tokens, 4096);
    assert_eq!(sel.threads, 8);
    assert_eq!(sel.reasons, vec![
        "usable memory budget: 40.00 GiB".to_string(),
        "selected quant q4_k_m at context 4096".to_string(),
        "threads set to 8".to_string(),
        "mode fast selected".to_string(),
    ]);
}

#[test]
fn recommend_moves_to_smaller_models() {
    let reg = registry();
    let cfg = MemoryConfig::default();
    // budget 5 GiB: a 7b model needs at least 4 + 0.5 + 1 GiB, the 1.5b one fits at 1024.
    let h = hw(9 * GIB, None, None, 6);
    let sel = recommend(&reg, &h, Task::Code, Mode::Balanced, &cfg).ok().unwrap();
    assert_eq!(sel.model.id, "small-code");
    assert_eq!(sel.quantization, "q4_k_m");
    assert_eq!(sel.context_tokens, 1024);
    assert_eq!(sel.threads, 4);
    // budget 8 GiB: the 7b models fit again, the one listed last comes first.
    let h = hw(12 * GIB, None, None, 6);
    let sel = recommend(&reg, &h, Task::Code, Mode::Balanced, &cfg).ok().unwrap();
    assert_eq!(sel.model.id, "other-mid-code");
    assert_eq!(sel.context_tokens, 1024);
}

#[test]
fn recommend_reports_when_nothing_fits() {
    let reg = registry();
    let cfg = MemoryConfig::default();
    let h = hw(4 * GIB, None, None, 6);
    match recommend(&reg, &h, Task::Chat, Mode::Quality, &cfg) {
        Err(TokensmithError::Runtime(m)) => assert_eq!(
            m,
            "no model in registry fits memory for task 'chat' and mode 'quality'. try --mode fast"
        ),
        _ => panic!("expected a runtime error"),
    }
}

#[test]
fn thread_count_rules() {
    assert_eq!(threads_for(&hw(GIB, None, Some(6), 12)), 6);
    assert_eq!(threads_for(&hw(GIB, None, None, 12)), 10);
    assert_eq!(threads_for(&hw(GIB, None, None, 2)), 1);
    assert_eq!(threads_for(&hw(GIB, None, None, 0)), 1);
    assert_eq!(threads_for(&hw(GIB, None, None, 64)), 16);
}

#[test]
fn recommend_fits_detects_overflow() {
    let cfg = MemoryConfig::default();
    let reg = Registry { models: vec![model("huge", "code", "7b", &[("q4_k_m", u64::MAX)])] };
    let h = hw(64 * GIB, None, None, 4);
    assert!(!recommend_fits(&reg, &h, Task::Code, Mode::Fast, &cfg));
    assert!(recommend_fits(&reg, &h, Task::Chat, Mode::Fast, &cfg));
}
