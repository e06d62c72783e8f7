use tokensmith::error::TokensmithError;
use tokensmith::paths::{join_path, TokensmithPaths};
use tokensmith::state::{AppConfig, ServerState};

#[test]
fn join_follows_pathbuf() {
    for (base, seg) in [("/a", "b"), ("/a/", "b"), ("", "b"), ("/a", "/b"), ("rel", "x.gguf")] {
        let expected = std::path::Path::new(base).join(seg).display().to_string();
        assert_eq!(join_path(base, seg), expected);
    }
}

#[test]
fn root_comes_from_override_or_home() {
    let p = TokensmithPaths::new(Some("/opt/ts".to_string()), Some("/home/u".to_string())).ok().unwrap();
    assert_eq!(p.root(), "/opt/ts");
    let p = TokensmithPaths::new(None, Some("/home/u".to_string())).ok().unwrap();
    assert_eq!(p.root(), "/home/u/.tokensmith");
    match TokensmithPaths::new(None, None) {
        Err(TokensmithError::Runtime(m)) => assert_eq!(m, "could not resolve home directory"),
        _ => panic!("expected a runtime error"),
    }
}

#[test]
fn layout_under_the_root() {
    let p = TokensmithPaths::new(None, Some("/home/u".to_string())).ok().unwrap();
    assert_eq!(p.models_dir(), "/home/u/.tokensmith/models");
    assert_eq!(p.model_dir("qwen"), "/home/u/.tokensmith/models/qwen");
    assert_eq!(p.model_file("qwen"), "/home/u/.tokensmith/models/qwen/qwen.gguf");
    assert_eq!(p.logs_dir(), "/home/u/.tokensmith/logs");
    assert_eq!(p.bin_dir(), "/home/u/.tokensmith/bin");
    assert_eq!(p.state_path(), "/home/u/.tokensmith/state.json");
    assert_eq!(p.config_path(), "/home/u/.tokensmith/config.toml");
    assert_eq!(p.server_log_path_at(1700000000), "/home/u/.tokensmith/logs/server-1700000000.log");
    assert_eq!(p.server_log_path_at(0), "/home/u/.tokensmith/logs/server-0.log");
    assert_eq!(p.runtime_log_path_at(42), "/home/u/.tokensmith/logs/llama-server-42.log");
    assert!(p.new_runtime_log_path().starts_with("/home/u/.tokensmith/logs/llama-server-"));
}

#[test]
fn fresh_log_path_is_named_by_the_time() {
    let p = TokensmithPaths::new(Some("/r".to_string()), None).ok().unwrap();
    let before = std::time::SystemTime::now().duration_since(std::time::UNIX_EPOCH).unwrap().as_secs();
    let path = p.new_server_log_path();
    let after = std::time::SystemTime::now().duration_since(std::time::UNIX_EPOCH).unwrap().as_secs();
    let ts: u64 = path
        .strip_prefix("/r/logs/server-")
        .and_then(|s| s.strip_suffix(".log"))
        .unwrap()
        .parse()
        .unwrap();
    assert!(before <= ts && ts <= after);
}

#[test]
fn default_state_and_config() {
    let s = ServerState::default();
    assert!(!s.active);
    assert_eq!(s.pid, None);
    assert_eq!(s.host, "127.0.0.1");
    assert_eq!(s.port, 8000);
    assert_eq!(s.task, "chat");
    assert_eq!(s.mode, "balanced");
    assert_eq!(s.requests_served, Some(0));
    assert_eq!(s.version, 1);
    let c = AppConfig::default();
    assert_eq!(c.optimizer.safety_buffer_bytes, 4 * 1024 * 1024 * 1024);
    assert_eq!(c.optimizer.overhead_bytes, 1024 * 1024 * 1024);
}

#[test]
fn active_then_stopped() {
    let mut s = ServerState::active(7, "0.0.0.0", 9000, "code", "fast", "m", "/p", "tokensmith-axum", "/l");
    assert!(s.active);
    assert_eq!(s.pid, Some(7));
    assert!(s.started_at > 0);
    assert_eq!(s.host, "0.0.0.0");
    assert_eq!(s.runtime, "tokensmith-axum");
    let started = s.started_at;
    s.mark_stopped();
    assert!(!s.active);
    assert_eq!(s.pid, None);
    assert_eq!(s.started_at, started);
    assert_eq!(s.model_id, "m");
    assert_eq!(s.log_path, "/l");
    let t = ServerState::active_at(12, 1, "h", 2, "chat", "quality", "id", "mp", "rt", "lp");
    assert_eq!(t.started_at, 12);
    assert_eq!(t.mode, "quality");
    assert_eq!(t.last_metrics.is_none(), true);
}
