use tokensmith::profiler::{parse_vm_stat_page_size, parse_vm_stat_pages, vm_stat_available_bytes};
use tokensmith::text::{decimal_string, lines_with, str_contains};

const VM_STAT: &str = "Mach Virtual Memory Statistics: (page size of 16384 bytes)\n\
Pages free:                               12345.\n\
Pages active:                            200000.\n\
Pages inactive:                           54321.\n\
Pages speculative:                         1000.\n\
Pages throttled:                              0.\n\
Pages wired down:                        100000.\n\
Pages purgeable:                            500.\n";

#[test]
fn vm_stat_fields() {
    assert_eq!(parse_vm_stat_page_size(VM_STAT), 16384);
    assert_eq!(parse_vm_stat_pages(VM_STAT, "Pages free:"), 12345);
    assert_eq!(parse_vm_stat_pages(VM_STAT, "Pages inactive:"), 54321);
    assert_eq!(parse_vm_stat_pages(VM_STAT, "Pages speculative:"), 1000);
    assert_eq!(parse_vm_stat_pages(VM_STAT, "Pages purgeable:"), 500);
    assert_eq!(parse_vm_stat_pages(VM_STAT, "Pages compressed:"), 0);
    assert_eq!(vm_stat_available_bytes(VM_STAT), (12345 + 54321 + 1000 + 500) * 16384);
}

#[test]
fn vm_stat_defaults() {
    assert_eq!(parse_vm_stat_page_size(""), 4096);
    assert_eq!(parse_vm_stat_page_size("page size of lots bytes"), 4096);
    assert_eq!(parse_vm_stat_page_size("x page size of  8192 bytes)"), 8192);
    assert_eq!(parse_vm_stat_pages("  Pages free: 1,234.", "Pages free:"), 1234);
    assert_eq!(parse_vm_stat_pages("Pages free", "Pages free"), 0);
    assert_eq!(parse_vm_stat_pages("Pages free: none", "Pages free:"), 0);
    assert_eq!(vm_stat_available_bytes("Pages free: 3\n"), 3 * 4096);
}

#[test]
fn call_lines_are_filtered() {
    let log = "a model_call start\nother\r\nb model_call proxied\r\n\nmodel_call";
    let expected: Vec<String> = log.lines().filter(|l| l.contains("model_call")).map(|l| l.to_string()).collect();
    assert_eq!(lines_with(log, "model_call"), expected);
    assert_eq!(expected.len(), 3);
    assert!(lines_with("", "model_call").is_empty());
}

#[test]
fn small_text_helpers() {
    assert!(str_contains("hello", "ll"));
    assert!(str_contains("hello", ""));
    assert!(!str_contains("hello", "lo!"));
    assert_eq!(decimal_string(0), "0");
    assert_eq!(decimal_string(u64::MAX), u64::MAX.to_string());
}
