use tokensmith::cli::Task;
use tokensmith::commands::{
    apply_context_override, calls_follow_command, checksum_outcome, context_override_notice,
    local_fallback_notice, pull_plan, stop_step, substitution_notice, StopAction, llama_server_args, llama_server_candidates, process_record, ps_row,
    runtime_address, runtime_port, serve_args, throttle_target, ProcessRecord,
};
use tokensmith::doctor::summarize;
use tokensmith::error::TokensmithError;
use tokensmith::logging::log_level;
use tokensmith::paths::TokensmithPaths;
use tokensmith::profiles::Mode;
use tokensmith::profiler::HardwareProfile;
use tokensmith::registry::{ModelEntry, QuantizationInfo, Registry};
use tokensmith::selector::Selection;
use tokensmith::state::ServerState;

fn selection(ctx: u32, threads: u32) -> Selection {
    Selection {
        model: ModelEntry {
            id: "qwen".to_string(),
            name: "Qwen".to_string(),
            task: "code".to_string(),
            size_class: "7b".to_string(),
            format: "gguf".to_string(),
            downloads: vec!["https://example.invalid/q.gguf".to_string()],
            sha256: None,
            quantizations: vec![QuantizationInfo { name: "q4_k_m".to_string(), approx_size_bytes: 1 }],
            default_context: 4096,
            max_context: 32768,
        },
        quantization: "q4_k_m".to_string(),
        context_tokens: ctx,
        threads,
        reasons: vec!["why".to_string()],
    }
}

fn active_state() -> ServerState {
    ServerState::active_at(
        1_700_000_000,
        4242,
        "127.0.0.1",
        8000,
        "code",
        "fast",
        "qwen",
        "/m/qwen.gguf",
        "tokensmith-axum",
        "/l/server.log",
    )
}

#[test]
fn context_override_reports_the_auto_context() {
    let mut s = selection(4096, 8);
    assert_eq!(apply_context_override(&mut s, None), None);
    assert_eq!(s.context_tokens, 4096);
    assert_eq!(apply_context_override(&mut s, Some(8192)), Some((4096, true)));
    assert_eq!(s.context_tokens, 8192);
    assert_eq!(apply_context_override(&mut s, Some(2048)), Some((8192, false)));
    assert_eq!(s.context_tokens, 2048);
    assert_eq!(s.quantization, "q4_k_m");
    assert_eq!(s.threads, 8);
}

#[test]
fn process_record_reads_the_state() {
    let mut st = active_state();
    assert_eq!(process_record(&st), ProcessRecord::Running(4242));
    st.pid = None;
    assert_eq!(process_record(&st), ProcessRecord::MissingPid);
    st.active = false;
    assert_eq!(process_record(&st), ProcessRecord::Inactive);
    assert_eq!(process_record(&ServerState::default()), ProcessRecord::Inactive);
}

#[test]
fn throttle_needs_an_active_server() {
    match throttle_target(&ServerState::default()) {
        Err(TokensmithError::Runtime(m)) => assert_eq!(m, "no active server to throttle"),
        _ => panic!("expected a runtime error"),
    }
    let (task, host, port) = throttle_target(&active_state()).ok().unwrap();
    assert_eq!(task, Task::Code);
    assert_eq!(host, "127.0.0.1");
    assert_eq!(port, 8000);
    let mut st = active_state();
    st.task = "poetry".to_string();
    let (task, _, _) = throttle_target(&st).ok().unwrap();
    assert_eq!(task, Task::Chat);
}

#[test]
fn ps_row_is_tab_separated() {
    let st = active_state();
    assert_eq!(ps_row(&st, true), "4242\ttrue\ttrue\t127.0.0.1\t8000\tqwen\tfast");
    let mut st = st;
    st.pid = None;
    assert_eq!(ps_row(&st, false), "0\ttrue\tfalse\t127.0.0.1\t8000\tqwen\tfast");
}

#[test]
fn follow_command_quotes_the_path() {
    assert_eq!(
        calls_follow_command("/tmp/a.log"),
        "tail -f '/tmp/a.log' | awk '/model_call/ { print; fflush(); }'"
    );
    let path = "/tmp/it's.log";
    let expected = format!(
        "tail -f '{}' | awk '/model_call/ {{ print; fflush(); }}'",
        path.replace('\'', "'\"'\"'")
    );
    assert_eq!(calls_follow_command(path), expected);
    assert_eq!(calls_follow_command(path), "tail -f '/tmp/it'\"'\"'s.log' | awk '/model_call/ { print; fflush(); }'");
}

#[test]
fn runtime_listens_on_the_next_port() {
    assert_eq!(runtime_port(8000), 8001);
    assert_eq!(runtime_port(u16::MAX), u16::MAX);
    let (addr, url) = runtime_address("127.0.0.1", 8000);
    assert_eq!(addr, "127.0.0.1:8001");
    assert_eq!(url, "http://127.0.0.1:8001");
}

#[test]
fn llama_arguments() {
    let s = selection(4096, 6);
    assert_eq!(
        llama_server_args("/m/q.gguf", "0.0.0.0", 9000, &s),
        vec!["-m", "/m/q.gguf", "--host", "0.0.0.0", "--port", "9001", "-c", "4096", "-t", "6"]
    );
}

#[test]
fn serve_arguments() {
    assert_eq!(
        serve_args(Task::Chat, "fast", "127.0.0.1", 8000, "llama", "/m/l.gguf", None),
        vec![
            "serve", "--task", "chat", "--mode", "fast", "--host", "127.0.0.1", "--port", "8000",
            "--model-id", "llama", "--model-path", "/m/l.gguf",
        ]
    );
    let with_url = serve_args(Task::Code, "quality", "h", 1, "m", "p", Some("http://h:2"));
    assert_eq!(with_url.len(), 15);
    assert_eq!(with_url[2], "code");
    assert_eq!(with_url[13], "--runtime-url");
    assert_eq!(with_url[14], "http://h:2");
}

#[test]
fn log_levels_by_verbosity() {
    assert_eq!(log_level(0), "info");
    assert_eq!(log_level(1), "debug");
    assert_eq!(log_level(2), "trace");
    assert_eq!(log_level(255), "trace");
}

#[test]
fn doctor_summary_lines() {
    let mut p = HardwareProfile {
        os: "macos".to_string(),
        arch: "aarch64".to_string(),
        cpu_brand: "M".to_string(),
        logical_cores: 12,
        physical_cores: Some(12),
        performance_cores: Some(8),
        efficiency_cores: Some(4),
        total_mem_bytes: 1,
        available_mem_bytes: None,
        has_gpu_accel: true,
        gpu_backend: Some("metal".to_string()),
    };
    assert_eq!(summarize(&p), vec!["macos aarch64", "logical cores: 12", "gpu backend: metal"]);
    p.gpu_backend = None;
    assert_eq!(summarize(&p)[2], "gpu backend: none");
}

#[test]
fn error_display_has_the_kind() {
    let e = TokensmithError::Config("bad".to_string());
    assert_eq!(e.to_string(), "configuration error: bad");
    assert_eq!(e.message(), "bad");
    let e = TokensmithError::Runtime("late".to_string());
    assert_eq!(e.to_string(), "runtime error: late");
}

#[test]
fn llama_server_is_looked_for_in_bin_first() {
    let p = TokensmithPaths::new(Some("/ts".to_string()), None).ok().unwrap();
    let dirs = vec!["/usr/bin".to_string(), "/opt/x/".to_string()];
    assert_eq!(
        llama_server_candidates(&p, &dirs),
        vec!["/ts/bin/llama-server", "/usr/bin/llama-server", "/opt/x/llama-server"]
    );
    assert_eq!(llama_server_candidates(&p, &Vec::new()), vec!["/ts/bin/llama-server"]);
}

#[test]
fn pull_plan_targets_the_model_file() {
    let p = TokensmithPaths::new(Some("/ts".to_string()), None).ok().unwrap();
    let mut m = selection(1, 1).model;
    m.sha256 = Some("abc".to_string());
    let mut bare = m.clone();
    bare.id = "bare".to_string();
    bare.downloads = Vec::new();
    let reg = Registry { models: vec![m, bare] };
    let plan = pull_plan(&p, &reg, "qwen").ok().unwrap();
    assert_eq!(plan.model_id, "qwen");
    assert_eq!(plan.url, "https://example.invalid/q.gguf");
    assert_eq!(plan.dir, "/ts/models/qwen");
    assert_eq!(plan.dest, "/ts/models/qwen/qwen.gguf");
    assert_eq!(plan.sha256, Some("abc".to_string()));
    match pull_plan(&p, &reg, "nope") {
        Err(TokensmithError::Runtime(m)) => assert_eq!(m, "model 'nope' not found in registry"),
        _ => panic!("expected a runtime error"),
    }
    match pull_plan(&p, &reg, "bare") {
        Err(TokensmithError::Runtime(m)) => assert_eq!(m, "no download URL configured for bare"),
        _ => panic!("expected a runtime error"),
    }
}

#[test]
fn checksum_outcomes() {
    assert_eq!(checksum_outcome("q", &Some("ab".to_string()), "ab").ok().unwrap(), "Checksum verified: ab");
    assert_eq!(
        checksum_outcome("q", &None, "cd").ok().unwrap(),
        "Warning: no SHA256 in registry. Computed SHA256: cd"
    );
    match checksum_outcome("q", &Some("ab".to_string()), "cd") {
        Err(TokensmithError::Runtime(m)) => assert_eq!(m, "checksum mismatch for q: expected ab, got cd"),
        _ => panic!("expected a runtime error"),
    }
}

#[test]
fn safe_stop_steps() {
    assert_eq!(stop_step(false, true), StopAction::Done);
    assert_eq!(stop_step(false, false), StopAction::Done);
    assert_eq!(stop_step(true, true), StopAction::Wait);
    assert_eq!(stop_step(true, false), StopAction::Kill);
}

#[test]
fn up_notices() {
    assert!(substitution_notice("a", "a").is_empty());
    assert_eq!(
        substitution_notice("big", "small"),
        vec![
            "Warning: recommended model 'big' is not present locally. Using 'small' from local cache.",
            "Suggestion: run `tokensmith pull big` for the optimized choice.",
        ]
    );
    assert_eq!(
        local_fallback_notice(Task::Code, Mode::Balanced, "no fit", "tiny"),
        vec![
            "Warning: no optimal model fit for task 'code' mode 'balanced': no fit",
            "Using local fallback model 'tiny'.",
            "Suggestion: pull a smaller code model or free memory, then retry `tokensmith recommend --task code --mode balanced`.",
        ]
    );
    assert_eq!(
        context_override_notice(8192, 4096),
        vec![
            "Context override enabled: using --ctx 8192 (auto-selected was 4096).",
            "Warning: forced context may exceed safe memory/runtime limits and can cause 400/503 errors.",
        ]
    );
    assert_eq!(
        context_override_notice(4096, 4096),
        vec!["Context override enabled: using --ctx 4096 (auto-selected was 4096)."]
    );
}
