use vstd::prelude::*;

use crate::cli::Task;
use crate::error::TokensmithError;
use crate::heuristics::texts;
use crate::profiles::Mode;
use crate::paths::{join, join_path, model_file, TokensmithPaths};
use crate::registry::{index_of_id, Registry};
use crate::selector::Selection;
use crate::state::ServerState;
use crate::text::{chars_of, concat, decimal, push_decimal, replace_char, replace_char_exec, str_eq, string_of};

verus! {

/// Overrides the selected context with `ctx` when one is given. Returns the context that
/// had been selected and whether the override is larger than it.
pub fn apply_context_override(selection: &mut Selection, ctx: Option<u32>) -> (r: Option<(u32, bool)>)
    ensures
        match ctx {
            None => r is None && *final(selection) == *old(selection),
            Some(c) => {
                &&& r == Some((old(selection).context_tokens, c > old(selection).context_tokens))
                &&& final(selection).context_tokens == c
                &&& final(selection).model == old(selection).model
                &&& final(selection).quantization == old(selection).quantization
                &&& final(selection).threads == old(selection).threads
                &&& final(selection).reasons == old(selection).reasons
            },
        },
{
    match ctx {
        None => None,
        Some(c) => {
            let auto_ctx = selection.context_tokens;
            selection.context_tokens = c;
            Some((auto_ctx, c > auto_ctx))
        },
    }
}

/// The lines `up` prints when the recommended model is replaced by one from the local
/// cache; none when it is not replaced.
pub fn substitution_notice(recommended_id: &str, used_id: &str) -> (r: Vec<String>)
    ensures
        recommended_id@ == used_id@ ==> r@.len() == 0,
        recommended_id@ != used_id@ ==> texts(r@) == seq![
            "Warning: recommended model '"@ + recommended_id@ + "' is not present locally. Using '"@ + used_id@
                + "' from local cache."@,
            "Suggestion: run `tokensmith pull "@ + recommended_id@ + "` for the optimized choice."@,
        ],
{
    let mut r: Vec<String> = Vec::new();
    if str_eq(recommended_id, used_id) {
        return r;
    }
    let mut w = String::from_str("Warning: recommended model '");
    w.append(recommended_id);
    w.append("' is not present locally. Using '");
    w.append(used_id);
    w.append("' from local cache.");
    let mut s = String::from_str("Suggestion: run `tokensmith pull ");
    s.append(recommended_id);
    s.append("` for the optimized choice.");
    r.push(w);
    r.push(s);
    assert(texts(r@) =~= seq![w@, s@]);
    r
}

/// The lines `up` prints when nothing could be recommended and a local model is used.
pub fn local_fallback_notice(task: Task, mode: Mode, reason: &str, used_id: &str) -> (r: Vec<String>)
    ensures
        texts(r@) == seq![
            "Warning: no optimal model fit for task '"@ + task.name() + "' mode '"@ + mode.name() + "': "@ + reason@,
            "Using local fallback model '"@ + used_id@ + "'."@,
            "Suggestion: pull a smaller code model or free memory, then retry `tokensmith recommend --task "@
                + task.name() + " --mode "@ + mode.name() + "`."@,
        ],
{
    let mut w = String::from_str("Warning: no optimal model fit for task '");
    w.append(task.as_str());
    w.append("' mode '");
    w.append(mode.as_str());
    w.append("': ");
    w.append(reason);
    let mut u = String::from_str("Using local fallback model '");
    u.append(used_id);
    u.append("'.");
    let mut s = String::from_str("Suggestion: pull a smaller code model or free memory, then retry `tokensmith recommend --task ");
    s.append(task.as_str());
    s.append(" --mode ");
    s.append(mode.as_str());
    s.append("`.");
    let r = vec![w, u, s];
    assert(texts(r@) =~= seq![w@, u@, s@]);
    r
}

/// The lines `up` prints when `--ctx` overrides the selected context; a warning follows
/// when the override is larger.
pub fn context_override_notice(ctx: u32, auto_ctx: u32) -> (r: Vec<String>)
    ensures
        texts(r@) == seq![
            "Context override enabled: using --ctx "@ + decimal(ctx as nat) + " (auto-selected was "@ + decimal(
                auto_ctx as nat,
            ) + ")."@,
        ] + if ctx > auto_ctx {
            seq!["Warning: forced context may exceed safe memory/runtime limits and can cause 400/503 errors."@]
        } else {
            seq![]
        },
{
    let mut l = String::from_str("Context override enabled: using --ctx ");
    push_decimal(&mut l, ctx as u64);
    l.append(" (auto-selected was ");
    push_decimal(&mut l, auto_ctx as u64);
    l.append(").");
    let mut r = vec![l];
    let ghost first = r@;
    if ctx > auto_ctx {
        r.push(String::from_str("Warning: forced context may exceed safe memory/runtime limits and can cause 400/503 errors."));
        assert(texts(r@) =~= texts(first).push("Warning: forced context may exceed safe memory/runtime limits and can cause 400/503 errors."@));
    }
    assert(texts(first) =~= seq![l@]);
    assert(texts(r@) =~= seq![l@] + if ctx > auto_ctx {
        seq!["Warning: forced context may exceed safe memory/runtime limits and can cause 400/503 errors."@]
    } else {
        seq![]
    });
    r
}

/// What a safe stop does next, once SIGTERM has been sent.
#[derive(Clone, Copy, Debug, PartialEq, Eq, Structural)]
pub enum StopAction {
    /// The process is gone.
    Done,
    /// Wait a moment and look again.
    Wait,
    /// Send SIGKILL.
    Kill,
}

/// One step of a safe stop: done once the process is gone; while the grace period
/// (`--force-after`) lasts, wait; after it, escalate to SIGKILL.
pub fn stop_step(alive: bool, grace_left: bool) -> (r: StopAction)
    ensures
        !alive ==> r == StopAction::Done,
        alive && grace_left ==> r == StopAction::Wait,
        alive && !grace_left ==> r == StopAction::Kill,
{
    if !alive {
        StopAction::Done
    } else if grace_left {
        StopAction::Wait
    } else {
        StopAction::Kill
    }
}

/// What the saved state says of the managed server's process.
#[derive(Clone, Copy, Debug, PartialEq, Eq, Structural)]
pub enum ProcessRecord {
    /// No server is active.
    Inactive,
    /// A server is active but its process id was not recorded.
    MissingPid,
    /// A server is active with this process id.
    Running(u32),
}

pub fn process_record(state: &ServerState) -> (r: ProcessRecord)
    ensures
        !state.active ==> r == ProcessRecord::Inactive,
        state.active ==> match state.pid {
            Some(p) => r == ProcessRecord::Running(p),
            None => r == ProcessRecord::MissingPid,
        },
{
    if !state.active {
        ProcessRecord::Inactive
    } else {
        match state.pid {
            Some(p) => ProcessRecord::Running(p),
            None => ProcessRecord::MissingPid,
        }
    }
}

/// Where a throttled server restarts: the recorded task (chat when it cannot be read),
/// host and port; refused when no server is active.
pub fn throttle_target(state: &ServerState) -> (r: Result<(Task, String, u16), TokensmithError>)
    ensures
        !state.active ==> (r matches Err(TokensmithError::Runtime(m)) && m@ == "no active server to throttle"@),
        state.active ==> (r matches Ok(t) && t.0 == match Task::from_name(state.task@) {
            Some(k) => k,
            None => Task::Chat,
        } && t.1@ == state.host@ && t.2 == state.port),
{
    if !state.active {
        return Err(TokensmithError::Runtime(String::from_str("no active server to throttle")));
    }
    let task = match Task::parse(state.task.as_str()) {
        Ok(t) => t,
        Err(_) => Task::Chat,
    };
    Ok((task, state.host.clone(), state.port))
}

/// How a boolean displays.
pub open spec fn bool_text(b: bool) -> Seq<char> {
    if b { "true"@ } else { "false"@ }
}

fn push_bool(s: &mut String, b: bool)
    ensures
        final(s)@ == old(s)@ + bool_text(b),
{
    if b {
        s.append("true");
    } else {
        s.append("false");
    }
}

/// The row `ps` prints under "PID ACTIVE ALIVE HOST PORT MODEL MODE", tab-separated;
/// a missing process id shows as 0.
pub open spec fn ps_row_text(state: ServerState, alive: bool) -> Seq<char> {
    decimal(
        match state.pid {
            Some(p) => p as nat,
            None => 0,
        },
    ) + "\t"@ + bool_text(state.active) + "\t"@ + bool_text(alive) + "\t"@ + state.host@ + "\t"@ + decimal(
        state.port as nat,
    ) + "\t"@ + state.model_id@ + "\t"@ + state.mode@
}

pub fn ps_row(state: &ServerState, alive: bool) -> (r: String)
    ensures
        r@ == ps_row_text(*state, alive),
{
    let mut s = String::new();
    let pid: u64 = match state.pid {
        Some(p) => p as u64,
        None => 0,
    };
    push_decimal(&mut s, pid);
    s.append("\t");
    push_bool(&mut s, state.active);
    s.append("\t");
    push_bool(&mut s, alive);
    s.append("\t");
    s.append(state.host.as_str());
    s.append("\t");
    push_decimal(&mut s, state.port as u64);
    s.append("\t");
    s.append(state.model_id.as_str());
    s.append("\t");
    s.append(state.mode.as_str());
    s
}

/// The shell command that follows a log and keeps only model-call lines; the path is put
/// in single quotes, each quote in it written as `'"'"'`.
pub open spec fn follow_calls_command(log_path: Seq<char>) -> Seq<char> {
    "tail -f '"@ + replace_char(log_path, '\'', "'\"'\"'"@) + "' | awk '/model_call/ { print; fflush(); }'"@
}

pub fn calls_follow_command(log_path: &str) -> (r: String)
    ensures
        r@ == follow_calls_command(log_path@),
{
    let cs = chars_of(log_path);
    let escaped = replace_char_exec(&cs, '\'', "'\"'\"'");
    let mut s = String::from_str("tail -f '");
    s.append(string_of(&escaped, 0, escaped.len()).as_str());
    assert(escaped@.subrange(0, escaped@.len() as int) == escaped@);
    s.append("' | awk '/model_call/ { print; fflush(); }'");
    s
}

/// The port the llama.cpp runtime listens on: the one after the API's, saturating.
pub open spec fn runtime_port_of(port: u16) -> u16 {
    if port == u16::MAX { u16::MAX } else { (port + 1) as u16 }
}

pub fn runtime_port(port: u16) -> (r: u16)
    ensures
        r == runtime_port_of(port),
{
    port.saturating_add(1)
}

/// The arguments `llama-server` is started with.
pub open spec fn llama_args(model_path: Seq<char>, host: Seq<char>, port: u16, ctx: u32, threads: u32) -> Seq<Seq<char>> {
    seq![
        "-m"@,
        model_path,
        "--host"@,
        host,
        "--port"@,
        decimal(runtime_port_of(port) as nat),
        "-c"@,
        decimal(ctx as nat),
        "-t"@,
        decimal(threads as nat),
    ]
}

pub fn llama_server_args(model_path: &str, host: &str, port: u16, selection: &Selection) -> (r: Vec<String>)
    ensures
        r@.map_values(|s: String| s@) == llama_args(model_path@, host@, port, selection.context_tokens, selection.threads),
{
    let mut p = String::new();
    push_decimal(&mut p, runtime_port(port) as u64);
    let mut c = String::new();
    push_decimal(&mut c, selection.context_tokens as u64);
    let mut t = String::new();
    push_decimal(&mut t, selection.threads as u64);
    let r = vec![
        String::from_str("-m"),
        String::from_str(model_path),
        String::from_str("--host"),
        String::from_str(host),
        String::from_str("--port"),
        p,
        String::from_str("-c"),
        c,
        String::from_str("-t"),
        t,
    ];
    assert(r@.map_values(|s: String| s@) =~= llama_args(model_path@, host@, port, selection.context_tokens, selection.threads));
    r
}

/// What `pull` fetches: the model, the URL it comes from, the directory and file it goes
/// to, and the checksum the registry expects, if any.
pub struct PullPlan {
    pub model_id: String,
    pub url: String,
    pub dir: String,
    pub dest: String,
    pub sha256: Option<String>,
}

/// Plans the download of model `model_id`: its first download URL, into
/// `<models>/<id>/<id>.gguf`. Refused when the registry has no such model or the model no
/// download.
pub fn pull_plan(paths: &TokensmithPaths, registry: &Registry, model_id: &str) -> (r: Result<PullPlan, TokensmithError>)
    ensures
        match index_of_id(registry.models@, model_id@) {
            None => r matches Err(TokensmithError::Runtime(m)) && m@ == "model '"@ + model_id@ + "' not found in registry"@,
            Some(i) => {
                let e = registry.models@[i];
                if e.downloads@.len() == 0 {
                    r matches Err(TokensmithError::Runtime(m)) && m@ == "no download URL configured for "@ + e.id@
                } else {
                    r matches Ok(p) && p.model_id@ == e.id@ && p.url@ == e.downloads@[0]@
                        && p.dir@ == join(join(paths.root_view(), "models"@), e.id@)
                        && p.dest@ == model_file(paths.root_view(), e.id@) && p.sha256 == e.sha256
                }
            },
        },
{
    match registry.by_id(model_id) {
        None => {
            let mut m = String::from_str("model '");
            m.append(model_id);
            m.append("' not found in registry");
            Err(TokensmithError::Runtime(m))
        },
        Some(e) => {
            if e.downloads.len() == 0 {
                return Err(TokensmithError::Runtime(concat("no download URL configured for ", e.id.as_str())));
            }
            let sha256 = match &e.sha256 {
                Some(h) => Some(h.clone()),
                None => None,
            };
            Ok(PullPlan {
                model_id: e.id.clone(),
                url: e.downloads[0].clone(),
                dir: paths.model_dir(e.id.as_str()),
                dest: paths.model_file(e.id.as_str()),
                sha256,
            })
        },
    }
}

/// Checks a downloaded file's SHA-256 against the registry's: the line to print when it
/// matches or none was expected, the mismatch otherwise.
pub fn checksum_outcome(model_id: &str, expected: &Option<String>, actual: &str) -> (r: Result<String, TokensmithError>)
    ensures
        match expected {
            None => r matches Ok(line) && line@ == "Warning: no SHA256 in registry. Computed SHA256: "@ + actual@,
            Some(e) => if e@ == actual@ {
                r matches Ok(line) && line@ == "Checksum verified: "@ + e@
            } else {
                r matches Err(TokensmithError::Runtime(m)) && m@ == "checksum mismatch for "@ + model_id@ + ": expected "@
                    + e@ + ", got "@ + actual@
            },
        },
{
    match expected {
        None => Ok(concat("Warning: no SHA256 in registry. Computed SHA256: ", actual)),
        Some(e) => {
            if str_eq(e.as_str(), actual) {
                Ok(concat("Checksum verified: ", e.as_str()))
            } else {
                let mut m = String::from_str("checksum mismatch for ");
                m.append(model_id);
                m.append(": expected ");
                m.append(e.as_str());
                m.append(", got ");
                m.append(actual);
                Err(TokensmithError::Runtime(m))
            }
        },
    }
}

/// Where `llama-server` is looked for, in order: tokensmith's own `bin` directory, then
/// each directory of the search path.
pub open spec fn llama_server_places(bin_dir: Seq<char>, search_dirs: Seq<String>) -> Seq<Seq<char>> {
    seq![join(bin_dir, "llama-server"@)] + search_dirs.map_values(|d: String| join(d@, "llama-server"@))
}

/// The files `llama-server` may be found at, in the order they are tried; the first that
/// exists is used.
pub fn llama_server_candidates(paths: &TokensmithPaths, search_dirs: &Vec<String>) -> (r: Vec<String>)
    ensures
        r@.map_values(|s: String| s@) == llama_server_places(join(paths.root_view(), "bin"@), search_dirs@),
{
    let bin = paths.bin_dir();
    let mut r: Vec<String> = Vec::new();
    r.push(join_path(bin.as_str(), "llama-server"));
    let ghost first = join(join(paths.root_view(), "bin"@), "llama-server"@);
    let mut i: usize = 0;
    while i < search_dirs.len()
        invariant
            i <= search_dirs@.len(),
            r@.map_values(|s: String| s@) == seq![first] + search_dirs@.take(i as int).map_values(
                |d: String| join(d@, "llama-server"@),
            ),
        decreases search_dirs.len() - i,
    {
        let ghost r0 = r@;
        r.push(join_path(search_dirs[i].as_str(), "llama-server"));
        assert(search_dirs@.take(i + 1) =~= search_dirs@.take(i as int).push(search_dirs@[i as int]));
        assert(r@.map_values(|s: String| s@) =~= r0.map_values(|s: String| s@).push(join(search_dirs@[i as int]@, "llama-server"@)));
        assert(search_dirs@.take(i + 1).map_values(|d: String| join(d@, "llama-server"@)) =~= search_dirs@.take(i as int).map_values(
            |d: String| join(d@, "llama-server"@),
        ).push(join(search_dirs@[i as int]@, "llama-server"@)));
        i += 1;
    }
    assert(search_dirs@.take(i as int) == search_dirs@);
    r
}

/// The runtime's address and its URL: `host:port` and `http://host:port`.
pub fn runtime_address(host: &str, port: u16) -> (r: (String, String))
    ensures
        r.0@ == host@ + ":"@ + decimal(runtime_port_of(port) as nat),
        r.1@ == "http://"@ + host@ + ":"@ + decimal(runtime_port_of(port) as nat),
{
    let mut addr = String::from_str(host);
    addr.append(":");
    push_decimal(&mut addr, runtime_port(port) as u64);
    let mut url = String::from_str("http://");
    url.append(addr.as_str());
    (addr, url)
}

/// The arguments of the detached `serve` process.
pub open spec fn serve_arg_texts(
    task: Task,
    mode: Seq<char>,
    host: Seq<char>,
    port: u16,
    model_id: Seq<char>,
    model_path: Seq<char>,
    runtime_url: Option<Seq<char>>,
) -> Seq<Seq<char>> {
    seq![
        "serve"@,
        "--task"@,
        task.name(),
        "--mode"@,
        mode,
        "--host"@,
        host,
        "--port"@,
        decimal(port as nat),
        "--model-id"@,
        model_id,
        "--model-path"@,
        model_path,
    ] + match runtime_url {
        Some(u) => seq!["--runtime-url"@, u],
        None => seq![],
    }
}

pub fn serve_args(
    task: Task,
    mode: &str,
    host: &str,
    port: u16,
    model_id: &str,
    model_path: &str,
    runtime_url: Option<&str>,
) -> (r: Vec<String>)
    ensures
        r@.map_values(|s: String| s@) == serve_arg_texts(
            task,
            mode@,
            host@,
            port,
            model_id@,
            model_path@,
            match runtime_url {
                Some(u) => Some(u@),
                None => None,
            },
        ),
{
    let mut p = String::new();
    push_decimal(&mut p, port as u64);
    let mut r = vec![
        String::from_str("serve"),
        String::from_str("--task"),
        task.to_string(),
        String::from_str("--mode"),
        String::from_str(mode),
        String::from_str("--host"),
        String::from_str(host),
        String::from_str("--port"),
        p,
        String::from_str("--model-id"),
        String::from_str(model_id),
        String::from_str("--model-path"),
        String::from_str(model_path),
    ];
    let ghost base = r@;
    match runtime_url {
        Some(u) => {
            r.push(String::from_str("--runtime-url"));
            r.push(String::from_str(u));
            assert(r@.map_values(|s: String| s@) =~= base.map_values(|s: String| s@) + seq!["--runtime-url"@, u@]);
        },
        None => {
            assert(r@.map_values(|s: String| s@) =~= base.map_values(|s: String| s@) + Seq::<Seq<char>>::empty());
        },
    }
    r
}

} // verus!
