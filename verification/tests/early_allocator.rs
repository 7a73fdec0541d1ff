//! Concrete scenarios for the double-ended bootstrap allocator.

use bump_allocator::{AllocError, EarlyAllocator};

#[test]
fn fresh_region_accounting() {
    let mut a = EarlyAllocator::<0x1000>::new();
    a.init(0x1000, 0x1000);
    assert_eq!(a.total_bytes(), 0x1000);
    assert_eq!(a.available_bytes(), 0x1000);
    assert_eq!(a.used_bytes(), 0);
    assert_eq!(a.total_pages(), 1);
    assert_eq!(a.used_pages(), 0);
    assert_eq!(a.available_pages(), 1);
}

#[test]
fn byte_allocations_advance_the_cursor() {
    let mut a = EarlyAllocator::<0x1000>::new();
    a.init(0x1000, 0x1000);
    assert!(a.allocate(16, 8) == Ok(0x1000));
    assert_eq!(a.used_bytes(), 16);
    assert!(a.allocate(16, 8) == Ok(0x1010));
    assert_eq!(a.used_bytes(), 32);
}

#[test]
fn bulk_reclaim_on_last_deallocation() {
    let mut a = EarlyAllocator::<0x1000>::new();
    a.init(0x1000, 0x1000);
    assert!(a.allocate(16, 8) == Ok(0x1000));
    assert!(a.allocate(16, 8) == Ok(0x1010));
    a.deallocate(0x1000, 16, 8);
    // One allocation is still live: the byte cursor has not moved.
    assert_eq!(a.used_bytes(), 32);
    a.deallocate(0x1010, 16, 8);
    // The last deallocation reclaims the whole byte arena at once.
    assert_eq!(a.used_bytes(), 0);
    assert_eq!(a.available_bytes(), 0x1000);
    // The reset is observable: the next allocation starts at the base again.
    assert!(a.allocate(16, 8) == Ok(0x1000));
}

#[test]
fn bulk_reclaim_in_reverse_order() {
    let mut a = EarlyAllocator::<0x1000>::new();
    a.init(0x1000, 0x1000);
    assert!(a.allocate(16, 8) == Ok(0x1000));
    assert!(a.allocate(16, 8) == Ok(0x1010));
    a.deallocate(0x1010, 16, 8);
    assert_eq!(a.used_bytes(), 32);
    a.deallocate(0x1000, 16, 8);
    assert_eq!(a.used_bytes(), 0);
}

#[test]
fn bulk_reclaim_after_three() {
    let mut a = EarlyAllocator::<0x1000>::new();
    a.init(0x1000, 0x1000);
    assert!(a.allocate(16, 8) == Ok(0x1000));
    assert!(a.allocate(16, 8) == Ok(0x1010));
    assert!(a.allocate(16, 8) == Ok(0x1020));
    a.deallocate(0x1000, 16, 8);
    a.deallocate(0x1010, 16, 8);
    assert_eq!(a.used_bytes(), 48);
    a.deallocate(0x1020, 16, 8);
    assert_eq!(a.used_bytes(), 0);
    assert_eq!(a.available_bytes(), 0x1000);
}

#[test]
fn page_allocation_fills_the_gap() {
    let mut a = EarlyAllocator::<0x1000>::new();
    a.init(0x1000, 0x1000);
    assert!(a.allocate_pages(1, 0x1000) == Ok(0x1000));
    assert_eq!(a.available_bytes(), 0);
    assert!(a.allocate(1, 1) == Err(AllocError::NoMemory));
}

#[test]
fn byte_boundary_exact_fit_succeeds() {
    let mut a = EarlyAllocator::<0x1000>::new();
    a.init(0x1000, 0x100);
    assert!(a.allocate(0x100, 1) == Ok(0x1000));
    assert_eq!(a.available_bytes(), 0);
    assert_eq!(a.used_bytes(), 0x100);
}

#[test]
fn byte_boundary_one_past_fails() {
    let mut a = EarlyAllocator::<0x1000>::new();
    a.init(0x1000, 0x100);
    assert!(a.allocate(0x101, 1) == Err(AllocError::NoMemory));
    // A refused request changes nothing.
    assert_eq!(a.used_bytes(), 0);
    assert_eq!(a.available_bytes(), 0x100);
}

#[test]
fn page_boundary_exact_fit_succeeds() {
    let mut a = EarlyAllocator::<0x100>::new();
    a.init(0x1000, 0x200);
    assert!(a.allocate_pages(2, 1) == Ok(0x1000));
    assert_eq!(a.available_bytes(), 0);
    assert_eq!(a.used_pages(), 2);
}

#[test]
fn page_boundary_one_page_more_fails() {
    let mut a = EarlyAllocator::<0x100>::new();
    a.init(0x1000, 0x200);
    assert!(a.allocate_pages(3, 1) == Err(AllocError::NoMemory));
    // A refused request changes nothing.
    assert_eq!(a.available_bytes(), 0x200);
    assert_eq!(a.used_pages(), 0);
}

#[test]
fn totals_fixed_across_activity() {
    let mut a = EarlyAllocator::<0x100>::new();
    a.init(0x1000, 0x300);
    assert_eq!(a.total_bytes(), 0x300);
    assert_eq!(a.total_pages(), 3);
    assert!(a.allocate(5, 1) == Ok(0x1000));
    assert_eq!(a.total_bytes(), 0x300);
    assert_eq!(a.total_pages(), 3);
    assert!(a.allocate_pages(1, 1) == Ok(0x1200));
    assert_eq!(a.total_bytes(), 0x300);
    assert_eq!(a.total_pages(), 3);
    a.deallocate(0x1000, 5, 1);
    assert_eq!(a.total_bytes(), 0x300);
    assert_eq!(a.total_pages(), 3);
    a.deallocate_pages(0x1200, 1);
    assert_eq!(a.total_bytes(), 0x300);
    assert_eq!(a.total_pages(), 3);
}

#[test]
fn page_cursor_never_advances() {
    let mut a = EarlyAllocator::<0x100>::new();
    a.init(0x1000, 0x400);
    assert!(a.allocate_pages(1, 1) == Ok(0x1300));
    assert!(a.allocate_pages(1, 1) == Ok(0x1200));
    assert_eq!(a.used_pages(), 2);
    // Releasing pages is a no-op: the cursor and the accounting stay put.
    a.deallocate_pages(0x1300, 1);
    assert_eq!(a.used_pages(), 2);
    assert_eq!(a.available_pages(), 2);
    assert!(a.allocate_pages(1, 1) == Ok(0x1100));
}

#[test]
fn add_memory_always_denied() {
    let mut a = EarlyAllocator::<0x1000>::new();
    a.init(0x1000, 0x100);
    assert!(a.add_memory(0x2000, 0x100) == Err(AllocError::NoMemory));
    assert_eq!(a.total_bytes(), 0x100);
    assert_eq!(a.available_bytes(), 0x100);
}

#[test]
fn deallocate_with_none_outstanding_is_noop() {
    let mut a = EarlyAllocator::<0x1000>::new();
    a.init(0x1000, 0x100);
    a.deallocate(0x1000, 16, 8);
    assert_eq!(a.used_bytes(), 0);
    assert!(a.allocate(8, 8) == Ok(0x1000));
}

#[test]
fn zero_aligned_address_is_invalid_param() {
    let mut a = EarlyAllocator::<0x1000>::new();
    a.init(0, 0x100);
    // The region starts at address zero, so the first aligned position is
    // null: the request is refused and, as with every failure, nothing
    // changes.
    assert!(a.allocate(16, 8) == Err(AllocError::InvalidParam));
    assert_eq!(a.used_bytes(), 0);
    assert_eq!(a.available_bytes(), 0x100);
}

#[test]
fn unaligned_cursor_rounds_up() {
    let mut a = EarlyAllocator::<0x1000>::new();
    a.init(0x1001, 0x100);
    assert!(a.allocate(1, 8) == Ok(0x1008));
    // The padding up to the aligned address counts as used.
    assert_eq!(a.used_bytes(), 8);
}

#[test]
fn page_accounting_truncates() {
    let mut a = EarlyAllocator::<0x1000>::new();
    a.init(0x1000, 0x1800);
    assert_eq!(a.total_pages(), 1);
    assert!(a.allocate_pages(1, 1) == Ok(0x1800));
    assert_eq!(a.used_pages(), 1);
    assert_eq!(a.available_pages(), 0);
    assert_eq!(a.available_bytes(), 0x800);
}

#[test]
fn reinit_discards_everything() {
    let mut a = EarlyAllocator::<0x1000>::new();
    a.init(0x1000, 0x2000);
    assert!(a.allocate(16, 8) == Ok(0x1000));
    assert!(a.allocate_pages(1, 0x1000) == Ok(0x2000));
    a.init(0x2000, 0x800);
    assert_eq!(a.total_bytes(), 0x800);
    assert_eq!(a.used_bytes(), 0);
    assert_eq!(a.available_bytes(), 0x800);
    assert!(a.allocate(16, 8) == Ok(0x2000));
}

#[test]
fn uninitialized_allocator_is_empty() {
    let a = EarlyAllocator::<0x1000>::new();
    assert_eq!(a.total_bytes(), 0);
    assert_eq!(a.available_bytes(), 0);
    assert_eq!(a.used_bytes(), 0);
    assert_eq!(a.total_pages(), 0);
}
