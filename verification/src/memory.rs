use vstd::prelude::*;

use crate::text::{contains, str_contains};

verus! {

/// Byte budgets used to decide whether a model fits in memory.
pub struct MemoryConfig {
    pub safety_buffer_bytes: u64,
    pub kv_bytes_per_token_7b: u64,
    pub kv_bytes_per_token_14b: u64,
    pub overhead_bytes: u64,
}

impl Clone for MemoryConfig {
    fn clone(&self) -> (r: Self)
        ensures
            r == *self,
    {
        MemoryConfig {
            safety_buffer_bytes: self.safety_buffer_bytes,
            kv_bytes_per_token_7b: self.kv_bytes_per_token_7b,
            kv_bytes_per_token_14b: self.kv_bytes_per_token_14b,
            overhead_bytes: self.overhead_bytes,
        }
    }
}

impl Default for MemoryConfig {
    /// 4 GiB safety buffer, 1 MiB of KV cache per token for 7B-class models, 2 MiB for
    /// 14B-class ones, 1 GiB of fixed overhead.
    fn default() -> (r: Self)
        ensures
            r.safety_buffer_bytes == 4 * 1024 * 1024 * 1024,
            r.kv_bytes_per_token_7b == 1024 * 1024,
            r.kv_bytes_per_token_14b == 2 * 1024 * 1024,
            r.overhead_bytes == 1024 * 1024 * 1024,
    {
        MemoryConfig {
            safety_buffer_bytes: 4 * 1024 * 1024 * 1024,
            kv_bytes_per_token_7b: 1024 * 1024,
            kv_bytes_per_token_14b: 2 * 1024 * 1024,
            overhead_bytes: 1024 * 1024 * 1024,
        }
    }
}

/// `total` less the safety buffer, stopping at zero.
pub open spec fn total_safe(total: u64, cfg: MemoryConfig) -> int {
    if total >= cfg.safety_buffer_bytes { total - cfg.safety_buffer_bytes } else { 0 }
}

/// The memory a model may use: the safe part of the total, further capped by what the
/// system reports as available when it reports it.
pub open spec fn usable(total: u64, available: Option<u64>, cfg: MemoryConfig) -> int {
    match available {
        Some(a) => if a <= total_safe(total, cfg) { a as int } else { total_safe(total, cfg) },
        None => total_safe(total, cfg),
    }
}

pub fn usable_memory(total: u64, available: Option<u64>, cfg: &MemoryConfig) -> (r: u64)
    ensures
        r == usable(total, available, *cfg),
        r <= total,
        available matches Some(a) ==> r <= a,
{
    let total_safe = total.saturating_sub(cfg.safety_buffer_bytes);
    match available {
        Some(avail) => if avail <= total_safe { avail } else { total_safe },
        None => total_safe,
    }
}

/// KV-cache bytes per token of context: the 14B rate for size classes that mention "14",
/// the 7B rate otherwise.
pub open spec fn kv_bytes_per_token(size_class: Seq<char>, cfg: MemoryConfig) -> u64 {
    if contains(size_class, "14"@) { cfg.kv_bytes_per_token_14b } else { cfg.kv_bytes_per_token_7b }
}

/// `a * b`, saturating at `u64::MAX`.
pub open spec fn saturating_mul(a: u64, b: u64) -> int {
    if a * b > u64::MAX { u64::MAX as int } else { a * b }
}

/// Estimated footprint: weights, the KV cache for `ctx` tokens, and the fixed overhead.
pub open spec fn estimate(weights: u64, size_class: Seq<char>, ctx: u32, cfg: MemoryConfig) -> int {
    weights + saturating_mul(kv_bytes_per_token(size_class, cfg), ctx as u64) + cfg.overhead_bytes
}

pub fn estimate_total_bytes(weights: u64, size_class: &str, ctx: u32, cfg: &MemoryConfig) -> (r: u64)
    requires
        estimate(weights, size_class@, ctx, *cfg) <= u64::MAX,
    ensures
        r == estimate(weights, size_class@, ctx, *cfg),
{
    let kv_per_token = if str_contains(size_class, "14") {
        cfg.kv_bytes_per_token_14b
    } else {
        cfg.kv_bytes_per_token_7b
    };
    let kv = match kv_per_token.checked_mul(ctx as u64) {
        Some(v) => v,
        None => u64::MAX,
    };
    weights + kv + cfg.overhead_bytes
}

} // verus!
