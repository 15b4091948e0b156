use bump_allocator::{AllocError, BaseAllocator, ByteAllocator, EarlyAllocator, PageAllocator};

const PAGE: usize = 0x1000;

#[test]
fn new_is_empty() {
    let a: EarlyAllocator<PAGE> = EarlyAllocator::new();
    assert_eq!(a.total_bytes(), 0);
    assert_eq!(a.used_bytes(), 0);
    assert_eq!(a.available_bytes(), 0);
    assert_eq!(a.total_pages(), 0);
}

#[test]
fn init_accounting() {
    let mut a: EarlyAllocator<PAGE> = EarlyAllocator::new();
    a.init(0x8000, 0x5000);
    assert_eq!(a.total_bytes(), 0x5000);
    assert_eq!(a.used_bytes(), 0);
    assert_eq!(a.available_bytes(), 0x5000);
    assert_eq!(a.total_pages(), 5);
    assert_eq!(a.used_pages(), 0);
    assert_eq!(a.available_pages(), 5);
    assert_eq!(a.page_size(), PAGE);
}

#[test]
fn byte_then_page_conflict() {
    let mut a: EarlyAllocator<PAGE> = EarlyAllocator::new();
    a.init(0x1000, 0x1000);
    assert_eq!(a.allocate(8, 8), Ok(0x1000));
    assert_eq!(a.used_bytes(), 8);
    assert_eq!(a.available_bytes(), 0x1000 - 8);
    assert_eq!(a.alloc_pages(1, 0), Err(AllocError::NoMemory));
    assert_eq!(a.used_bytes(), 8);
    assert_eq!(a.available_bytes(), 0x1000 - 8);
}

#[test]
fn reclaim_on_last_free() {
    let mut a: EarlyAllocator<PAGE> = EarlyAllocator::new();
    a.init(0x1000, 0x1000);
    let first = a.allocate(16, 8).unwrap();
    let second = a.allocate(32, 16).unwrap();
    assert_eq!(first, 0x1000);
    assert_eq!(second, 0x1010);
    let before = a.available_bytes();
    assert_eq!(before, 0x1000 - 0x30);
    a.dealloc(first, 16, 8);
    assert_eq!(a.available_bytes(), before);
    a.dealloc(second, 32, 16);
    assert_eq!(a.available_bytes(), 0x1000);
    assert_eq!(a.used_bytes(), 0);
    assert_eq!(a.allocate(4, 4), Ok(0x1000));
}

#[test]
fn free_with_nothing_outstanding_is_a_no_op() {
    let mut a: EarlyAllocator<PAGE> = EarlyAllocator::new();
    a.init(0x1000, 0x1000);
    a.dealloc(0x1000, 8, 8);
    assert_eq!(a.used_bytes(), 0);
    assert_eq!(a.allocate(8, 8), Ok(0x1000));
    assert_eq!(a.used_bytes(), 8);
}

#[test]
fn allocate_rounds_up_to_alignment() {
    let mut a: EarlyAllocator<PAGE> = EarlyAllocator::new();
    a.init(0x1000, 0x1000);
    assert_eq!(a.allocate(3, 1), Ok(0x1000));
    assert_eq!(a.allocate(8, 8), Ok(0x1008));
    assert_eq!(a.allocate(1, 0x100), Ok(0x1100));
    assert_eq!(a.used_bytes(), 0x101);
}

#[test]
fn allocate_exactly_fills_then_fails() {
    let mut a: EarlyAllocator<PAGE> = EarlyAllocator::new();
    a.init(0x1000, 0x40);
    assert_eq!(a.allocate(0x40, 8), Ok(0x1000));
    assert_eq!(a.available_bytes(), 0);
    assert_eq!(a.allocate(1, 1), Err(AllocError::NoMemory));
    assert_eq!(a.used_bytes(), 0x40);
}

#[test]
fn allocate_failure_leaves_state() {
    let mut a: EarlyAllocator<PAGE> = EarlyAllocator::new();
    a.init(0x1001, 0x20);
    assert_eq!(a.allocate(0x10, 0x20), Err(AllocError::NoMemory));
    assert_eq!(a.used_bytes(), 0);
    assert_eq!(a.available_bytes(), 0x20);
    assert_eq!(a.allocate(0x10, 0x10), Ok(0x1010));
}

#[test]
fn allocate_near_address_limit_fails() {
    let mut a: EarlyAllocator<PAGE> = EarlyAllocator::new();
    a.init(usize::MAX - 4, 4);
    assert_eq!(a.allocate(1, 8), Err(AllocError::NoMemory));
    assert_eq!(a.allocate(usize::MAX, 1), Err(AllocError::NoMemory));
    assert_eq!(a.allocate(4, 1), Ok(usize::MAX - 4));
}

#[test]
fn pages_grow_downward() {
    let mut a: EarlyAllocator<PAGE> = EarlyAllocator::new();
    a.init(0x10000, 0x8000);
    assert_eq!(a.alloc_pages(1, 0), Ok(0x17000));
    assert_eq!(a.alloc_pages(2, 12), Ok(0x15000));
    assert_eq!(a.used_pages(), 3);
    assert_eq!(a.available_pages(), 5);
    assert_eq!(a.used_bytes(), 0x3000);
    assert_eq!(a.available_bytes(), 0x5000);
}

#[test]
fn pages_round_down_to_alignment() {
    let mut a: EarlyAllocator<PAGE> = EarlyAllocator::new();
    a.init(0x10000, 0x8000);
    assert_eq!(a.alloc_pages(1, 0), Ok(0x17000));
    let addr = a.alloc_pages(1, 14).unwrap();
    assert_eq!(addr, 0x14000);
    assert_eq!(addr % (1 << 14), 0);
    assert_eq!(a.used_pages(), 4);
}

#[test]
fn pages_too_many_fail() {
    let mut a: EarlyAllocator<PAGE> = EarlyAllocator::new();
    a.init(0x10000, 0x4000);
    assert_eq!(a.alloc_pages(5, 0), Err(AllocError::NoMemory));
    assert_eq!(a.alloc_pages(usize::MAX, 0), Err(AllocError::NoMemory));
    assert_eq!(a.used_pages(), 0);
    assert_eq!(a.alloc_pages(4, 0), Ok(0x10000));
    assert_eq!(a.available_pages(), 0);
    assert_eq!(a.alloc_pages(0, 0), Ok(0x10000));
    assert_eq!(a.alloc_pages(1, 0), Err(AllocError::NoMemory));
}

#[test]
fn pages_and_bytes_do_not_cross() {
    let mut a: EarlyAllocator<PAGE> = EarlyAllocator::new();
    a.init(0x10000, 0x3000);
    assert_eq!(a.alloc_pages(1, 0), Ok(0x12000));
    assert_eq!(a.allocate(0x2000, 8), Ok(0x10000));
    assert_eq!(a.allocate(1, 1), Err(AllocError::NoMemory));
    assert_eq!(a.alloc_pages(1, 0), Err(AllocError::NoMemory));
}

#[test]
fn unsupported_operations() {
    let mut a: EarlyAllocator<PAGE> = EarlyAllocator::new();
    a.init(0x10000, 0x3000);
    assert_eq!(a.add_memory(0x20000, 0x1000), Err(AllocError::Unsupported));
    let p = a.alloc_pages(1, 0).unwrap();
    assert_eq!(a.dealloc_pages(p, 1), Err(AllocError::Unsupported));
    assert_eq!(a.total_bytes(), 0x3000);
    assert_eq!(a.used_pages(), 1);
}

#[test]
fn init_again_resets() {
    let mut a: EarlyAllocator<PAGE> = EarlyAllocator::new();
    a.init(0x10000, 0x3000);
    a.allocate(0x100, 8).unwrap();
    a.alloc_pages(1, 0).unwrap();
    a.init(0x20000, 0x2000);
    assert_eq!(a.used_bytes(), 0);
    assert_eq!(a.available_bytes(), 0x2000);
    assert_eq!(a.allocate(8, 8), Ok(0x20000));
}

#[test]
fn page_alignment_beyond_address_width() {
    let mut a: EarlyAllocator<PAGE> = EarlyAllocator::new();
    a.init(0x10000, 0x4000);
    assert_eq!(a.alloc_pages(1, 100), Err(AllocError::NoMemory));
    assert_eq!(a.used_pages(), 0);
    let mut b: EarlyAllocator<PAGE> = EarlyAllocator::new();
    b.init(0, 0x4000);
    assert_eq!(b.alloc_pages(1, 100), Ok(0));
    assert_eq!(b.used_pages(), 4);
    assert_eq!(b.available_bytes(), 0);
}

#[test]
fn allocate_never_returns_null() {
    let mut a: EarlyAllocator<PAGE> = EarlyAllocator::new();
    a.init(0, 0x1000);
    assert_eq!(a.allocate(8, 8), Err(AllocError::NoMemory));
    assert_eq!(a.used_bytes(), 0);
    assert_eq!(a.count(), 0);
    assert_eq!(a.available_bytes(), 0x1000);
    assert_eq!(a.allocate(8, 16), Err(AllocError::NoMemory));
    assert_eq!(a.used_bytes(), 0);
}

#[test]
fn count_tracks_outstanding_allocations() {
    let mut a: EarlyAllocator<PAGE> = EarlyAllocator::new();
    a.init(0x1000, 0x1000);
    assert_eq!(a.count(), 0);
    a.allocate(8, 8).unwrap();
    a.allocate(0, 1).unwrap();
    assert_eq!(a.count(), 2);
    a.dealloc(0x1000, 8, 8);
    assert_eq!(a.count(), 1);
    a.dealloc(0x1008, 0, 1);
    assert_eq!(a.count(), 0);
    a.dealloc(0x1000, 8, 8);
    assert_eq!(a.count(), 0);
}
