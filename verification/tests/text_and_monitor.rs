//! Text utilities and the system monitor's health arithmetic.

use terra_os_kernel::allocator::MemoryStats;
use terra_os_kernel::system_monitor::{MemoryHealthStatus, SystemMonitor};
use terra_os_kernel::terminal::Terminal;
use terra_os_kernel::text::{
    split_tokens, str_eq, string_drop_last, u64_to_hex_string, u64_to_string,
};

fn stats(total: u64, current: u64, free: u64, allocated: u64, count: u64) -> MemoryStats {
    MemoryStats {
        total_heap_size: total,
        allocated,
        freed: 0,
        current_allocated: current,
        max_allocated: current,
        allocation_count: count,
        deallocation_count: 0,
        free_memory: free,
    }
}

#[test]
fn decimal_rendering_is_exact() {
    assert_eq!(u64_to_string(0), "0");
    assert_eq!(u64_to_string(7), "7");
    assert_eq!(u64_to_string(10), "10");
    assert_eq!(u64_to_string(12345), "12345");
    assert_eq!(u64_to_string(u64::MAX), "18446744073709551615");
}

#[test]
fn hex_rendering_is_exact() {
    assert_eq!(u64_to_hex_string(0), "0");
    assert_eq!(u64_to_hex_string(255), "FF");
    assert_eq!(u64_to_hex_string(0x500000), "500000");
    assert_eq!(u64_to_hex_string(0xDEADBEEF), "DEADBEEF");
}

#[test]
fn string_equality_compares_contents() {
    assert!(str_eq("", ""));
    assert!(str_eq("abc", "abc"));
    assert!(!str_eq("abc", "abd"));
    assert!(!str_eq("abc", "ab"));
}

#[test]
fn drop_last_removes_one_character() {
    assert_eq!(string_drop_last("abc"), "ab");
    assert_eq!(string_drop_last("a"), "");
}

#[test]
fn tokenizer_splits_on_whitespace() {
    assert_eq!(split_tokens(""), Vec::<String>::new());
    assert_eq!(split_tokens("   \t "), Vec::<String>::new());
    assert_eq!(split_tokens("one"), vec!["one"]);
    assert_eq!(split_tokens("  ls -l  -a "), vec!["ls", "-l", "-a"]);
    assert_eq!(split_tokens("a\tb\nc"), vec!["a", "b", "c"]);
}

#[test]
fn healthy_snapshot_passes_the_check() {
    let m = SystemMonitor::new(stats(1000, 100, 900, 100, 1));
    let h = m.check_memory_health();
    assert_eq!(h.status, MemoryHealthStatus::Healthy);
    assert_eq!(h.usage_tenths, 100);
    assert_eq!(h.free_tenths, 900);
    assert!(h.warnings.is_empty());
    assert!(h.recommendations.is_empty());
}

#[test]
fn usage_above_seventy_five_percent_warns() {
    let m = SystemMonitor::new(stats(1000, 760, 240, 760, 3));
    let h = m.check_memory_health();
    assert_eq!(h.status, MemoryHealthStatus::Warning);
    assert_eq!(h.usage_tenths, 760);
    assert_eq!(h.warnings.len(), 1);
    assert_eq!(h.recommendations.len(), 1);
}

#[test]
fn usage_above_ninety_percent_is_critical() {
    let m = SystemMonitor::new(stats(1000, 950, 50, 950, 3));
    let h = m.check_memory_health();
    assert_eq!(h.status, MemoryHealthStatus::Critical);
    // High usage with little free also counts as fragmentation here.
    assert_eq!(h.warnings.len(), 2);
    assert_eq!(h.recommendations.len(), 2);
    assert_eq!(h.fragmentation_tenths, 950);
}

#[test]
fn inconsistent_bookkeeping_is_an_error() {
    let m = SystemMonitor::new(stats(1000, 0, 1000, 0, 4));
    let h = m.check_memory_health();
    assert_eq!(h.status, MemoryHealthStatus::Error);
    assert_eq!(h.warnings.len(), 1);
}

#[test]
fn boundary_values_stay_healthy() {
    // Exactly seventy-five percent is not above it.
    let m = SystemMonitor::new(stats(1000, 750, 250, 750, 1));
    let h = m.check_memory_health();
    assert_eq!(h.status, MemoryHealthStatus::Healthy);
    // Exactly ninety percent warns but is not critical.
    let m = SystemMonitor::new(stats(1000, 900, 100, 900, 1));
    let h = m.check_memory_health();
    assert_eq!(h.status, MemoryHealthStatus::Warning);
}

#[test]
fn a_fully_freed_heap_is_still_healthy() {
    // The anomaly check reads the cumulative total, so a heap whose
    // allocations were all returned is not flagged.
    let mut a = terra_os_kernel::allocator::LinkedListAllocator::new();
    a.init(0x10000, 8192);
    let p = a.allocate(1024, 8).unwrap();
    a.deallocate(p, 1024, 8);
    let snapshot = a.get_memory_stats();
    assert_eq!(snapshot.allocated, 1024);
    assert_eq!(snapshot.current_allocated, 0);
    let m = SystemMonitor::new(snapshot);
    let h = m.check_memory_health();
    assert_eq!(h.status, MemoryHealthStatus::Healthy);
    assert!(h.warnings.is_empty());
}

#[test]
fn reports_render_onto_the_terminal() {
    let m = SystemMonitor::new(stats(102400, 600, 101800, 1000, 5));
    let mut t = Terminal::new();
    m.display_memory_info(&mut t);
    m.display_system_info(&mut t);
    m.display_health_check(&mut t);
    assert_eq!(m.get_memory_stats().total_heap_size, 102400);
}

fn bottom_row_text(t: &Terminal) -> String {
    let frame = t.flush();
    let mut s = String::new();
    for col in 0..80 {
        s.push(frame.cell(24, col).ascii_character as char);
    }
    s.trim_end().to_string()
}

#[test]
fn the_figure_renderers_draw_exact_text() {
    let m = SystemMonitor::new(stats(1000, 100, 900, 100, 1));
    let mut t = Terminal::new();
    m.format_bytes(1536, &mut t);
    assert_eq!(bottom_row_text(&t), "1.5 KB");
    let mut t = Terminal::new();
    m.format_bytes(37, &mut t);
    assert_eq!(bottom_row_text(&t), "37 B");
    let mut t = Terminal::new();
    m.format_percentage(975, &mut t);
    assert_eq!(bottom_row_text(&t), "97.5%");
    let mut t = Terminal::new();
    m.format_number(420, &mut t);
    assert_eq!(bottom_row_text(&t), "420");
}
