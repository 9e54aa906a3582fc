use gitcore::pool::git_pool;

#[test]
fn alloc_size_rounds_items_to_word_alignment() {
    let pool = git_pool::init(8);
    assert_eq!(pool.alloc_size(3), Some(24));
    let byte_pool = git_pool::init(1);
    assert_eq!(byte_pool.alloc_size(5), Some(8));
}

#[test]
fn alloc_size_rounds_odd_item_sizes_up() {
    let pool = git_pool::init(12);
    // 12 rounds up to 16 per item
    assert_eq!(pool.alloc_size(2), Some(32));
    let pool1 = git_pool::init(1);
    assert_eq!(pool1.alloc_size(8), Some(8));
    assert_eq!(pool1.alloc_size(9), Some(16));
}

#[test]
fn alloc_size_overflow_fails() {
    let pool = git_pool::init(1);
    assert_eq!(pool.alloc_size(u32::MAX), None);
    let pool8 = git_pool::init(8);
    assert_eq!(pool8.alloc_size(u32::MAX / 4), None);
}

#[test]
fn allocations_bump_through_one_page() {
    let mut pool = git_pool::init(1);
    let h1 = pool.malloc(5).unwrap();
    let h2 = pool.malloc(5).unwrap();
    // both rounded to 8 bytes, carved from the same page back to back
    assert_eq!(h1.size, 8);
    assert_eq!(h2.size, 8);
    assert_eq!(h1.page, h2.page);
    assert_eq!(h1.offset, 0);
    assert_eq!(h2.offset, 8);
    // the ranges are disjoint
    assert!(h1.offset + h1.size <= h2.offset);
}

#[test]
fn oversized_request_gets_its_own_page() {
    let mut pool = git_pool::init(1);
    let big = pool.malloc(5000).unwrap();
    assert_eq!(big.size, 5000);
    assert_eq!(big.offset, 0);
    // the big request exhausted its page, so the next one opens a new page
    let small = pool.malloc(16).unwrap();
    assert_ne!(small.page, big.page);
    assert_eq!(small.offset, 0);
}

#[test]
fn earlier_pages_keep_their_contents() {
    let mut pool = git_pool::init(1);
    let first = pool.malloc(8).unwrap();
    pool.write_byte(&first, 0, 42);
    // force a new page, then make sure the old range still reads back
    let _big = pool.malloc(5000).unwrap();
    assert_eq!(pool.read_byte(&first, 0), 42);
}

#[test]
fn mallocz_zero_fills_its_range() {
    let mut pool = git_pool::init(1);
    let dirty = pool.malloc(8).unwrap();
    for i in 0..dirty.size {
        pool.write_byte(&dirty, i, 0xaa);
    }
    let clean = pool.mallocz(8).unwrap();
    for i in 0..clean.size {
        assert_eq!(pool.read_byte(&clean, i), 0);
    }
    // zeroing one range leaves the neighbouring range alone
    for i in 0..dirty.size {
        assert_eq!(pool.read_byte(&dirty, i), 0xaa);
    }
}

#[test]
fn write_and_read_through_a_handle() {
    let mut pool = git_pool::init(4);
    let h = pool.mallocz(2).unwrap();
    assert_eq!(h.size, 16);
    pool.write_byte(&h, 0, 1);
    pool.write_byte(&h, 15, 2);
    assert_eq!(pool.read_byte(&h, 0), 1);
    assert_eq!(pool.read_byte(&h, 1), 0);
    assert_eq!(pool.read_byte(&h, 15), 2);
}

#[test]
fn explicit_page_size_bounds_the_first_page() {
    // a platform with 16384-byte pages hands its page size in
    let mut pool = git_pool::init_with_page_size(1, 16384);
    let h1 = pool.malloc(8000).unwrap();
    let h2 = pool.malloc(8000).unwrap();
    // both requests fit one 16384-byte page
    assert_eq!(h1.page, h2.page);
    assert_eq!(h2.offset, 8000);
}

#[test]
fn clear_resets_to_no_pages() {
    let mut pool = git_pool::init(1);
    let before = pool.malloc(8).unwrap();
    pool.write_byte(&before, 0, 9);
    pool.clear();
    // the pool stays usable; allocation starts over from a fresh page
    let after = pool.malloc(8).unwrap();
    assert_eq!(after.page, 0);
    assert_eq!(after.offset, 0);
}

#[test]
fn oversized_page_request_overflow_fails_cleanly() {
    let mut pool = git_pool::init(1);
    // the request itself fits in 32 bits, but page header overhead does not
    let r = pool.alloc_bytes(u32::MAX - 10);
    assert_eq!(r, None);
    // the pool is untouched and stays usable
    let h = pool.malloc(8).unwrap();
    assert_eq!(h.offset, 0);
}

#[test]
fn zero_count_allocation_is_empty_but_valid() {
    let mut pool = git_pool::init(8);
    let h = pool.malloc(0).unwrap();
    assert_eq!(h.size, 0);
    let h2 = pool.malloc(1).unwrap();
    assert_eq!(h2.size, 8);
    assert_eq!(h2.offset, 0);
}
