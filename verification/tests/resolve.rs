use tokensmith::cli::Task;
use tokensmith::error::TokensmithError;
use tokensmith::paths::TokensmithPaths;
use tokensmith::profiler::HardwareProfile;
use tokensmith::profiles::Mode;
use tokensmith::registry::{ModelEntry, QuantizationInfo, Registry};
use tokensmith::resolve::{
    local_models_in_registry, local_resolution_fits, resolve_local_only_selection,
    resolve_selection_with_local_fallback, size_rank,
};
use tokensmith::selector::recommend;
use tokensmith::state::AppConfig;

const GIB: u64 = 1024 * 1024 * 1024;

fn model(id: &str, task: &str, size: &str, q4: u64) -> ModelEntry {
    ModelEntry {
        id: id.to_string(),
        name: id.to_string(),
        task: task.to_string(),
        size_class: size.to_string(),
        format: "gguf".to_string(),
        downloads: vec![format!("https://example.invalid/{id}.gguf")],
        sha256: None,
        quantizations: vec![QuantizationInfo { name: "q4_k_m".to_string(), approx_size_bytes: q4 }],
        default_context: 4096,
        max_context: 32768,
    }
}

fn hw(total: u64) -> HardwareProfile {
    HardwareProfile {
        os: "linux".to_string(),
        arch: "x86_64".to_string(),
        cpu_brand: "cpu".to_string(),
        logical_cores: 8,
        physical_cores: Some(4),
        performance_cores: None,
        efficiency_cores: None,
        total_mem_bytes: total,
        available_mem_bytes: None,
        has_gpu_accel: false,
        gpu_backend: Some("none".to_string()),
    }
}

fn registry() -> Registry {
    Registry {
        models: vec![
            model("code-14b", "code", "14b", 9 * GIB),
            model("code-1.5b", "code", "1.5b", GIB),
            model("chat-8b", "chat", "8b", 5 * GIB),
            model("chat-3b", "chat", "3b", 2 * GIB),
        ],
    }
}

fn paths() -> TokensmithPaths {
    TokensmithPaths::new(Some("/ts".to_string()), None).ok().unwrap()
}

#[test]
fn size_rank_reads_billions() {
    assert_eq!(size_rank("7b"), 700);
    assert_eq!(size_rank("1.5b"), 105);
    assert_eq!(size_rank("14b"), 1400);
    assert_eq!(size_rank("0.5b"), 5);
    assert_eq!(size_rank("3.25b"), 325);
    assert_eq!(size_rank("xl"), 0);
    assert_eq!(size_rank("bb"), 0);
    assert_eq!(size_rank("99999999b"), u32::MAX);
    assert_eq!(size_rank("7.xb"), 700);
}

#[test]
fn present_models_keep_registry_order() {
    let reg = registry();
    let ids: Vec<String> = local_models_in_registry(&reg, &vec![false, true, false, true])
        .iter()
        .map(|m| m.id.clone())
        .collect();
    assert_eq!(ids, vec!["code-1.5b", "chat-3b"]);
    assert!(local_models_in_registry(&reg, &vec![false; 4]).is_empty());
}

#[test]
fn preferred_model_on_disk_is_used() {
    let reg = registry();
    let h = hw(64 * GIB);
    let cfg = AppConfig::default();
    let pref = recommend(&reg, &h, Task::Code, Mode::Fast, &cfg.optimizer).ok().unwrap();
    assert_eq!(pref.model.id, "code-14b");
    let (sel, path) = resolve_selection_with_local_fallback(
        &paths(), &reg, &h, Task::Code, Mode::Fast, &cfg, pref, true, &vec![true, false, false, false],
    )
    .ok()
    .unwrap();
    assert_eq!(sel.model.id, "code-14b");
    assert_eq!(path, "/ts/models/code-14b/code-14b.gguf");
}

#[test]
fn no_local_cache_is_reported() {
    let reg = registry();
    let h = hw(64 * GIB);
    let cfg = AppConfig::default();
    let pref = recommend(&reg, &h, Task::Code, Mode::Fast, &cfg.optimizer).ok().unwrap();
    let present = vec![false; 4];
    assert!(local_resolution_fits(&reg, &present, &h, Task::Code, Mode::Fast, &cfg.optimizer));
    match resolve_selection_with_local_fallback(&paths(), &reg, &h, Task::Code, Mode::Fast, &cfg, pref, false, &present) {
        Err(TokensmithError::Runtime(m)) => assert_eq!(
            m,
            "model file not found at /ts/models/code-14b/code-14b.gguf. No local model cache found. Run `tokensmith pull code-14b` first."
        ),
        _ => panic!("expected a runtime error"),
    }
    match resolve_local_only_selection(&paths(), &reg, &h, Task::Code, Mode::Fast, &cfg, &present) {
        Err(TokensmithError::Runtime(m)) => assert_eq!(
            m,
            "no local model cache found. Pull one with `tokensmith pull <model_id>` first."
        ),
        _ => panic!("expected a runtime error"),
    }
}

#[test]
fn local_model_for_the_task_is_recommended() {
    let reg = registry();
    let h = hw(64 * GIB);
    let cfg = AppConfig::default();
    let pref = recommend(&reg, &h, Task::Code, Mode::Fast, &cfg.optimizer).ok().unwrap();
    let present = vec![false, true, true, false];
    let (sel, path) = resolve_selection_with_local_fallback(
        &paths(), &reg, &h, Task::Code, Mode::Fast, &cfg, pref, false, &present,
    )
    .ok()
    .unwrap();
    assert_eq!(sel.model.id, "code-1.5b");
    assert_eq!(path, "/ts/models/code-1.5b/code-1.5b.gguf");
    assert_eq!(sel.reasons.last().unwrap(), "mode fast selected");
    assert_eq!(sel.threads, 6);
}

#[test]
fn other_task_is_the_last_resort() {
    let reg = registry();
    let h = hw(64 * GIB);
    let cfg = AppConfig::default();
    let present = vec![false, false, true, true];
    let (sel, path) = resolve_local_only_selection(&paths(), &reg, &h, Task::Code, Mode::Fast, &cfg, &present)
        .ok()
        .unwrap();
    // No code model is present; the largest present model is tried first.
    assert_eq!(sel.model.id, "chat-8b");
    assert_eq!(path, "/ts/models/chat-8b/chat-8b.gguf");
    assert_eq!(sel.quantization, "q4_k_m");
    assert_eq!(sel.context_tokens, 4096);
    assert_eq!(
        sel.reasons,
        vec![
            "usable memory budget: 60.00 GiB".to_string(),
            "selected quant q4_k_m at context 4096".to_string(),
            "fallback: using locally available model with task mismatch".to_string(),
        ]
    );
}

#[test]
fn fallback_skips_models_that_do_not_fit() {
    let reg = registry();
    // budget 5 GiB: chat-8b (5 GiB of weights) cannot fit, chat-3b can at 1024.
    let h = hw(9 * GIB);
    let cfg = AppConfig::default();
    let present = vec![false, false, true, true];
    let (sel, _) = resolve_local_only_selection(&paths(), &reg, &h, Task::Code, Mode::Fast, &cfg, &present)
        .ok()
        .unwrap();
    assert_eq!(sel.model.id, "chat-3b");
    assert_eq!(sel.context_tokens, 1024);
}

#[test]
fn nothing_local_fits() {
    let reg = registry();
    let h = hw(5 * GIB);
    let cfg = AppConfig::default();
    let present = vec![true, false, true, false];
    match resolve_local_only_selection(&paths(), &reg, &h, Task::Code, Mode::Balanced, &cfg, &present) {
        Err(TokensmithError::Runtime(m)) => assert_eq!(
            m,
            "no local model fits memory for mode 'balanced'. Pull a smaller model (for example qwen2.5-1.5b-instruct) or lower memory pressure."
        ),
        _ => panic!("expected a runtime error"),
    }
    let pref = recommend(&registry(), &hw(64 * GIB), Task::Code, Mode::Fast, &cfg.optimizer).ok().unwrap();
    match resolve_selection_with_local_fallback(&paths(), &reg, &h, Task::Code, Mode::Balanced, &cfg, pref, false, &present) {
        Err(TokensmithError::Runtime(m)) => assert_eq!(
            m,
            "recommended model 'code-14b' is not local, and no local model fits memory for this mode. Try `tokensmith pull code-14b` or lower memory pressure (close apps / reduce context)."
        ),
        _ => panic!("expected a runtime error"),
    }
}

#[test]
fn local_resolution_overflow_is_detected() {
    let reg = Registry { models: vec![model("huge", "chat", "7b", u64::MAX)] };
    let h = hw(64 * GIB);
    let cfg = AppConfig::default();
    assert!(!local_resolution_fits(&reg, &vec![true], &h, Task::Code, Mode::Fast, &cfg.optimizer));
    assert!(local_resolution_fits(&reg, &vec![false], &h, Task::Code, Mode::Fast, &cfg.optimizer));
}
