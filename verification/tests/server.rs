use std::sync::atomic::{AtomicU64, Ordering};
use std::sync::Arc;

use tokensmith::cli::Task;
use tokensmith::profiles::Mode;
use tokensmith::server::{
    chat_reply, completion_reply, runtime_error_message, ProxyOutcome, Reply,
    extract_last_user, increment_requests, local_chat_content, local_completion_text,
    runtime_endpoint, stream_chunks, stream_completion_text, stream_echo_text, truncate_err_body,
    AppState, Message,
};

fn state() -> AppState {
    AppState {
        task: Task::Code,
        mode: Mode::Fast,
        model_id: "qwen".to_string(),
        model_path: "/m/qwen.gguf".to_string(),
        runtime_url: None,
        requests_served: Arc::new(AtomicU64::new(0)),
    }
}

fn msg(role: &str, content: &str) -> Message {
    Message { role: role.to_string(), content: content.to_string() }
}

#[test]
fn last_user_message_wins() {
    let ms = vec![msg("system", "s"), msg("user", "first"), msg("assistant", "a"), msg("user", "second"), msg("assistant", "b")];
    assert_eq!(extract_last_user(&ms), Some("second".to_string()));
    assert_eq!(extract_last_user(&vec![msg("system", "s")]), None);
    assert_eq!(extract_last_user(&Vec::new()), None);
}

#[test]
fn local_answers_carry_the_tag() {
    let st = state();
    let ms = vec![msg("user", "hello there")];
    assert_eq!(local_chat_content(&st, &ms), "tokensmith local response [code:fast /m/qwen.gguf]: hello there");
    assert_eq!(local_chat_content(&st, &Vec::new()), "tokensmith local response [code:fast /m/qwen.gguf]");
    assert_eq!(stream_echo_text(&st, &ms), "tokensmith stream echo [code:fast]: hello there");
    assert_eq!(stream_echo_text(&st, &Vec::new()), "tokensmith stream echo [code:fast]");
    assert_eq!(local_completion_text(&st, "fn main"), "tokensmith completion [code:fast /m/qwen.gguf]: fn main");
    assert_eq!(stream_completion_text(&st, "fn main"), "tokensmith stream completion [code:fast]: fn main");
}

#[test]
fn requests_are_counted() {
    let st = state();
    let shared = st.clone();
    increment_requests(&st);
    increment_requests(&shared);
    assert_eq!(st.requests_served.load(Ordering::Relaxed), 2);
}

#[test]
fn endpoint_drops_trailing_slashes() {
    assert_eq!(runtime_endpoint("http://127.0.0.1:8001", "/v1/completions"), "http://127.0.0.1:8001/v1/completions");
    assert_eq!(runtime_endpoint("http://127.0.0.1:8001//", "/v1/chat/completions"), "http://127.0.0.1:8001/v1/chat/completions");
    assert_eq!(runtime_endpoint("", "/x"), "/x");
}

fn reference_truncate(s: &str) -> String {
    let cleaned = s.replace('\n', " ").trim().to_string();
    if cleaned.len() <= 240 {
        cleaned
    } else {
        format!("{}...", &cleaned[..240])
    }
}

#[test]
fn error_bodies_are_cleaned_and_cut() {
    assert_eq!(truncate_err_body("  line one\nline two \n"), "line one line two");
    let exact = "x".repeat(240);
    assert_eq!(truncate_err_body(&exact), exact);
    let long = format!("{}tail", "y".repeat(250));
    let cut = truncate_err_body(&long);
    assert_eq!(cut, format!("{}...", "y".repeat(240)));
    assert_eq!(cut.len(), 243);
    let wide = format!("{}{}", "é".repeat(120), "zz");
    assert_eq!(truncate_err_body(&wide), reference_truncate(&wide));
    for s in ["", "\n\n", "a\nb", "\t x \t"] {
        assert_eq!(truncate_err_body(s), reference_truncate(s));
    }
}

#[test]
fn stream_pieces_are_words_with_a_space() {
    let text = "tokensmith  stream echo\t[code:fast]:\nhi ";
    let expected: Vec<String> = text.split_whitespace().map(|w| format!("{} ", w)).collect();
    assert_eq!(stream_chunks(text), expected);
    assert_eq!(stream_chunks("a b"), vec!["a ", "b "]);
    assert!(stream_chunks("   ").is_empty());
    assert_eq!(stream_chunks("x\u{00a0}y"), vec!["x ", "y "]);
}

fn reply_text(r: Reply) -> (&'static str, String) {
    match r {
        Reply::Forwarded => ("forwarded", String::new()),
        Reply::Stream(t) => ("stream", t),
        Reply::Local(t) => ("local", t),
        Reply::BadGateway(t) => ("bad gateway", t),
    }
}

#[test]
fn chat_replies_by_outcome() {
    let st = state();
    let ms = vec![msg("user", "hi")];
    assert_eq!(reply_text(chat_reply(&st, &ms, false, ProxyOutcome::Forwarded)).0, "forwarded");
    assert_eq!(reply_text(chat_reply(&st, &ms, true, ProxyOutcome::Forwarded)).0, "forwarded");
    assert_eq!(
        reply_text(chat_reply(&st, &ms, true, ProxyOutcome::Failed("connection refused".to_string()))),
        ("bad gateway", "proxy error: connection refused".to_string())
    );
    assert_eq!(
        reply_text(chat_reply(&st, &ms, true, ProxyOutcome::NoRuntime)),
        ("stream", "tokensmith stream echo [code:fast]: hi".to_string())
    );
    assert_eq!(
        reply_text(chat_reply(&st, &ms, false, ProxyOutcome::NoRuntime)),
        ("local", "tokensmith local response [code:fast /m/qwen.gguf]: hi".to_string())
    );
}

#[test]
fn completion_replies_by_outcome() {
    let st = state();
    assert_eq!(
        reply_text(completion_reply(&st, "p", true, ProxyOutcome::NoRuntime)),
        ("stream", "tokensmith stream completion [code:fast]: p".to_string())
    );
    assert_eq!(
        reply_text(completion_reply(&st, "p", false, ProxyOutcome::NoRuntime)),
        ("local", "tokensmith completion [code:fast /m/qwen.gguf]: p".to_string())
    );
    assert_eq!(
        reply_text(completion_reply(&st, "p", false, ProxyOutcome::Failed("boom".to_string()))),
        ("bad gateway", "proxy error: boom".to_string())
    );
}

#[test]
fn runtime_failures_are_described() {
    assert_eq!(
        runtime_error_message("503 Service Unavailable", "/v1/completions", false, "Loading model\n"),
        "runtime returned 503 Service Unavailable for /v1/completions: Loading model"
    );
    assert_eq!(
        runtime_error_message("400 Bad Request", "/v1/chat/completions", true, "x"),
        "runtime returned 400 Bad Request for streamed /v1/chat/completions: x"
    );
}
