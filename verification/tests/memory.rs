use tokensmith::memory::{estimate_total_bytes, usable_memory, MemoryConfig};

#[test]
fn fit_and_no_fit() {
    let cfg = MemoryConfig::default();
    let usable = usable_memory(32 * 1024 * 1024 * 1024, Some(20 * 1024 * 1024 * 1024), &cfg);
    let fits = estimate_total_bytes(4 * 1024 * 1024 * 1024, "7b", 4096, &cfg) < usable;
    let no_fit = estimate_total_bytes(14 * 1024 * 1024 * 1024, "14b", 32768, &cfg) > usable;
    assert!(fits);
    assert!(no_fit);
}

#[test]
fn usable_memory_caps_by_available_and_buffer() {
    let cfg = MemoryConfig::default();
    let gib: u64 = 1024 * 1024 * 1024;
    assert_eq!(usable_memory(32 * gib, Some(20 * gib), &cfg), 20 * gib);
    assert_eq!(usable_memory(32 * gib, Some(30 * gib), &cfg), 28 * gib);
    assert_eq!(usable_memory(32 * gib, None, &cfg), 28 * gib);
    assert_eq!(usable_memory(2 * gib, None, &cfg), 0);
    assert_eq!(usable_memory(2 * gib, Some(gib), &cfg), 0);
}

#[test]
fn estimate_uses_the_size_class_rate() {
    let cfg = MemoryConfig::default();
    let mib: u64 = 1024 * 1024;
    let gib: u64 = 1024 * mib;
    assert_eq!(estimate_total_bytes(4 * gib, "7b", 4096, &cfg), 4 * gib + 4096 * mib + gib);
    assert_eq!(estimate_total_bytes(4 * gib, "14b", 4096, &cfg), 4 * gib + 4096 * 2 * mib + gib);
    assert_eq!(estimate_total_bytes(0, "3b", 0, &cfg), gib);
}

#[test]
fn estimate_saturates_the_kv_cache() {
    let cfg = MemoryConfig {
        safety_buffer_bytes: 0,
        kv_bytes_per_token_7b: u64::MAX / 2,
        kv_bytes_per_token_14b: 0,
        overhead_bytes: 0,
    };
    assert_eq!(estimate_total_bytes(0, "7b", 4, &cfg), u64::MAX);
}

#[test]
fn default_memory_config_values() {
    let cfg = MemoryConfig::default();
    assert_eq!(cfg.safety_buffer_bytes, 4 * 1024 * 1024 * 1024);
    assert_eq!(cfg.kv_bytes_per_token_7b, 1024 * 1024);
    assert_eq!(cfg.kv_bytes_per_token_14b, 2 * 1024 * 1024);
    assert_eq!(cfg.overhead_bytes, 1024 * 1024 * 1024);
}

#[test]
fn larger_context_needs_more_memory() {
    let cfg = MemoryConfig::default();
    let small = estimate_total_bytes(1000, "7b", 512, &cfg);
    let large = estimate_total_bytes(1000, "7b", 1024, &cfg);
    assert!(small <= large);
}
