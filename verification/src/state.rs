use vstd::prelude::*;

use crate::clock::unix_timestamp;
use crate::memory::MemoryConfig;

verus! {

/// Settings kept in `config.toml`.
pub struct AppConfig {
    pub optimizer: MemoryConfig,
}

impl Default for AppConfig {
    fn default() -> (r: Self)
        ensures
            r.optimizer.safety_buffer_bytes == 4 * 1024 * 1024 * 1024,
            r.optimizer.kv_bytes_per_token_7b == 1024 * 1024,
            r.optimizer.kv_bytes_per_token_14b == 2 * 1024 * 1024,
            r.optimizer.overhead_bytes == 1024 * 1024 * 1024,
    {
        AppConfig { optimizer: MemoryConfig::default() }
    }
}

/// One sample of the server process. The CPU percentage, a float, is kept by its bit
/// pattern (`f32::to_bits`).
pub struct MetricsSnapshot {
    pub rss_bytes: u64,
    pub cpu_percent_bits: u32,
    pub threads: usize,
    pub uptime_secs: u64,
    pub total_mem_bytes: Option<u64>,
    pub available_mem_bytes: Option<u64>,
}

impl Clone for MetricsSnapshot {
    fn clone(&self) -> (r: Self)
        ensures
            r == *self,
    {
        MetricsSnapshot {
            rss_bytes: self.rss_bytes,
            cpu_percent_bits: self.cpu_percent_bits,
            threads: self.threads,
            uptime_secs: self.uptime_secs,
            total_mem_bytes: self.total_mem_bytes,
            available_mem_bytes: self.available_mem_bytes,
        }
    }
}

/// What `state.json` records of the managed server.
pub struct ServerState {
    pub active: bool,
    pub pid: Option<u32>,
    pub started_at: u64,
    pub host: String,
    pub port: u16,
    pub task: String,
    pub mode: String,
    pub model_id: String,
    pub model_path: String,
    pub runtime: String,
    pub log_path: String,
    pub last_metrics: Option<MetricsSnapshot>,
    pub requests_served: Option<u64>,
    pub version: u32,
}

impl Default for ServerState {
    /// No active server; bind 127.0.0.1:8000, task chat, mode balanced, nothing served.
    fn default() -> (r: Self)
        ensures
            !r.active,
            r.pid is None,
            r.started_at == 0,
            r.host@ == "127.0.0.1"@,
            r.port == 8000,
            r.task@ == "chat"@,
            r.mode@ == "balanced"@,
            r.model_id@ == ""@,
            r.model_path@ == ""@,
            r.runtime@ == ""@,
            r.log_path@ == ""@,
            r.last_metrics is None,
            r.requests_served == Some(0u64),
            r.version == 1,
    {
        ServerState {
            active: false,
            pid: None,
            started_at: 0,
            host: String::from_str("127.0.0.1"),
            port: 8000,
            task: String::from_str("chat"),
            mode: String::from_str("balanced"),
            model_id: String::from_str(""),
            model_path: String::from_str(""),
            runtime: String::from_str(""),
            log_path: String::from_str(""),
            last_metrics: None,
            requests_served: Some(0),
            version: 1,
        }
    }
}

impl ServerState {
    /// Whether `s` records an active server with these settings, started at `started_at`.
    pub open spec fn records_active(
        s: ServerState,
        pid: u32,
        started_at: u64,
        host: Seq<char>,
        port: u16,
        task: Seq<char>,
        mode: Seq<char>,
        model_id: Seq<char>,
        model_path: Seq<char>,
        runtime: Seq<char>,
        log_path: Seq<char>,
    ) -> bool {
        &&& s.active
        &&& s.pid == Some(pid)
        &&& s.started_at == started_at
        &&& s.host@ == host
        &&& s.port == port
        &&& s.task@ == task
        &&& s.mode@ == mode
        &&& s.model_id@ == model_id
        &&& s.model_path@ == model_path
        &&& s.runtime@ == runtime
        &&& s.log_path@ == log_path
        &&& s.last_metrics is None
        &&& s.requests_served == Some(0u64)
        &&& s.version == 1
    }

    /// The state of a server just started at Unix time `started_at`.
    pub fn active_at(
        started_at: u64,
        pid: u32,
        host: &str,
        port: u16,
        task: &str,
        mode: &str,
        model_id: &str,
        model_path: &str,
        runtime: &str,
        log_path: &str,
    ) -> (r: Self)
        ensures
            Self::records_active(r, pid, started_at, host@, port, task@, mode@, model_id@, model_path@, runtime@, log_path@),
    {
        ServerState {
            active: true,
            pid: Some(pid),
            started_at,
            host: String::from_str(host),
            port,
            task: String::from_str(task),
            mode: String::from_str(mode),
            model_id: String::from_str(model_id),
            model_path: String::from_str(model_path),
            runtime: String::from_str(runtime),
            log_path: String::from_str(log_path),
            last_metrics: None,
            requests_served: Some(0),
            version: 1,
        }
    }

    /// The state of a server started now.
    pub fn active(
        pid: u32,
        host: &str,
        port: u16,
        task: &str,
        mode: &str,
        model_id: &str,
        model_path: &str,
        runtime: &str,
        log_path: &str,
    ) -> (r: Self)
        ensures
            Self::records_active(r, pid, r.started_at, host@, port, task@, mode@, model_id@, model_path@, runtime@, log_path@),
    {
        Self::active_at(unix_timestamp(), pid, host, port, task, mode, model_id, model_path, runtime, log_path)
    }

    /// Records that the server was stopped: no longer active and without a process id;
    /// everything else is kept.
    pub fn mark_stopped(&mut self)
        ensures
            !final(self).active,
            final(self).pid is None,
            final(self).started_at == old(self).started_at,
            final(self).host == old(self).host,
            final(self).port == old(self).port,
            final(self).task == old(self).task,
            final(self).mode == old(self).mode,
            final(self).model_id == old(self).model_id,
            final(self).model_path == old(self).model_path,
            final(self).runtime == old(self).runtime,
            final(self).log_path == old(self).log_path,
            final(self).last_metrics == old(self).last_metrics,
            final(self).requests_served == old(self).requests_served,
            final(self).version == old(self).version,
    {
        self.active = false;
        self.pid = None;
    }
}

} // verus!
