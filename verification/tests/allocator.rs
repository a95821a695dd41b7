//! Allocator behaviour: initialization, round trips, exhaustion,
//! alignment, statistics, and an interleaved multi-caller run.

use terra_os_kernel::allocator::{align_up, effective_size, LinkedListAllocator, NODE_SIZE};

#[test]
fn align_up_rounds_to_the_next_multiple() {
    assert_eq!(align_up(5, 8), 8);
    assert_eq!(align_up(8, 8), 8);
    assert_eq!(align_up(0, 1), 0);
    assert_eq!(align_up(17, 16), 32);
    assert_eq!(align_up(4096, 4096), 4096);
}

#[test]
fn effective_size_is_at_least_one_header() {
    assert_eq!(effective_size(0), NODE_SIZE);
    assert_eq!(effective_size(15), NODE_SIZE);
    assert_eq!(effective_size(16), 16);
    assert_eq!(effective_size(100), 100);
}

#[test]
fn new_allocator_has_zeroed_statistics() {
    let a = LinkedListAllocator::new();
    assert_eq!(a.get_total_allocated(), 0);
    assert_eq!(a.get_total_freed(), 0);
    assert_eq!(a.get_current_allocated(), 0);
    assert_eq!(a.get_max_allocated(), 0);
    assert_eq!(a.get_allocation_count(), 0);
    assert_eq!(a.get_deallocation_count(), 0);
}

#[test]
fn free_bytes_after_initialize_equal_the_region_size() {
    let mut a = LinkedListAllocator::new();
    a.init(0x10000, 4096);
    assert_eq!(a.get_free_memory(), 4096);
}

#[test]
fn example_region_walkthrough() {
    let mut a = LinkedListAllocator::new();
    a.init(0x10000, 4096);

    let p = a.allocate(100, 8);
    assert!(p.is_some());
    assert_ne!(p.unwrap(), 0);
    assert_eq!(a.get_current_allocated(), 100);

    let before = a.get_memory_stats();
    let q = a.allocate(4000, 8);
    assert!(q.is_none());
    let after = a.get_memory_stats();
    assert_eq!(before, after);

    a.deallocate(p.unwrap(), 100, 8);
    assert_eq!(a.get_current_allocated(), 0);
    assert_eq!(a.get_free_memory(), 4096);
}

#[test]
fn allocate_then_deallocate_restores_the_free_total() {
    let mut a = LinkedListAllocator::new();
    a.init(0x10000, 65536);
    let before = a.get_free_memory();
    let p = a.allocate(200, 16).unwrap();
    a.deallocate(p, 200, 16);
    assert_eq!(a.get_free_memory(), before);
}

#[test]
fn tight_alloc_free_loop_balances_the_counters() {
    let mut a = LinkedListAllocator::new();
    a.init(0x10000, 65536);
    for _ in 0..50 {
        if let Some(p) = a.allocate(128, 8) {
            a.deallocate(p, 128, 8);
        }
    }
    assert_eq!(a.get_allocation_count(), a.get_deallocation_count());
    assert_eq!(a.get_current_allocated(), 0);
}

#[test]
fn high_water_mark_never_decreases_and_bounds_current() {
    let mut a = LinkedListAllocator::new();
    a.init(0x10000, 65536);
    let mut prev_max = 0u64;
    let mut held: Vec<(usize, usize)> = Vec::new();
    for i in 0..8 {
        let size = 100 + i * 32;
        if let Some(p) = a.allocate(size, 8) {
            held.push((p, size));
        }
        let max = a.get_max_allocated();
        assert!(max >= prev_max);
        assert!(max >= a.get_current_allocated());
        prev_max = max;
    }
    for (p, size) in held {
        a.deallocate(p, size, 8);
        let max = a.get_max_allocated();
        assert!(max >= prev_max);
        assert!(max >= a.get_current_allocated());
        prev_max = max;
    }
}

#[test]
fn over_capacity_request_fails_without_any_mutation() {
    let mut a = LinkedListAllocator::new();
    a.init(0x10000, 4096);
    let p = a.allocate(64, 8);
    let before = a.get_memory_stats();
    let r = a.allocate(5000, 8);
    assert!(r.is_none());
    let after = a.get_memory_stats();
    assert_eq!(before, after);
    a.deallocate(p.unwrap(), 64, 8);
}

#[test]
fn returned_addresses_satisfy_every_power_of_two_alignment() {
    let mut align = 1usize;
    while align <= 4096 {
        let mut a = LinkedListAllocator::new();
        a.init(0x10000, 4096);
        if let Some(p) = a.allocate(100, align) {
            assert_eq!(p % align, 0, "alignment {} broken", align);
            a.deallocate(p, 100, align);
        }
        align *= 2;
    }
}

#[test]
fn interleaved_callers_balance_counts_and_never_overlap() {
    const CALLERS: usize = 4;
    const CYCLES: usize = 25;
    let sizes = [64usize, 96, 128, 160];

    let mut a = LinkedListAllocator::new();
    a.init(0x10000, 65536);

    for _ in 0..CYCLES {
        let mut live: Vec<(usize, usize)> = Vec::new();
        for c in 0..CALLERS {
            let p = a.allocate(sizes[c], 8).expect("capacity suffices");
            live.push((p, sizes[c]));
        }
        for i in 0..live.len() {
            for j in 0..live.len() {
                if i != j {
                    let (a1, s1) = live[i];
                    let (a2, s2) = live[j];
                    assert!(a1 + s1 <= a2 || a2 + s2 <= a1, "live ranges overlap");
                }
            }
        }
        for &(p, s) in live.iter() {
            a.deallocate(p, s, 8);
        }
    }

    assert_eq!(a.get_allocation_count(), (CALLERS * CYCLES) as u64);
    assert_eq!(a.get_deallocation_count(), (CALLERS * CYCLES) as u64);
    assert_eq!(a.get_current_allocated(), 0);
}

#[test]
fn memory_stats_snapshot_reflects_the_counters() {
    let mut a = LinkedListAllocator::new();
    a.init(0x10000, 8192);
    let p = a.allocate(500, 8).unwrap();
    let stats = a.get_memory_stats();
    assert_eq!(stats.total_heap_size, 8192);
    assert_eq!(stats.current_allocated, 500);
    assert_eq!(stats.allocated, 500);
    assert_eq!(stats.allocation_count, 1);
    assert_eq!(stats.deallocation_count, 0);
    assert_eq!(stats.max_allocated, 500);
    assert_eq!(stats.free_memory, a.get_free_memory());
    a.deallocate(p, 500, 8);
    let stats = a.get_memory_stats();
    assert_eq!(stats.current_allocated, 0);
    assert_eq!(stats.freed, 500);
    assert_eq!(stats.deallocation_count, 1);
    // The cumulative total survives the release.
    assert_eq!(stats.allocated, 500);
}

#[test]
fn counters_recompose_the_outstanding_bytes() {
    let mut a = LinkedListAllocator::new();
    a.init(0x10000, 8192);
    let p = a.allocate(1024, 8).unwrap();
    let q = a.allocate(300, 8).unwrap();
    a.deallocate(p, 1024, 8);
    assert_eq!(a.get_total_allocated(), 1324);
    assert_eq!(a.get_total_freed(), 1024);
    assert_eq!(
        a.get_current_allocated(),
        a.get_total_allocated() - a.get_total_freed()
    );
    assert_eq!(a.get_memory_stats().allocated, 1324);
    a.deallocate(q, 300, 8);
    assert_eq!(a.get_current_allocated(), 0);
    assert_eq!(a.get_memory_stats().allocated, 1324);
}
