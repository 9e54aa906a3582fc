use gitcore::buffer::git_buf;
use gitcore::errors::GitError;

fn content(buf: &git_buf) -> Vec<u8> {
    let mut out = Vec::new();
    let mut i = 0;
    while i < buf.len() {
        out.push(buf.byte_at(i));
        i += 1;
    }
    out
}

#[test]
fn new_buffer_is_empty_and_terminated() {
    let b = git_buf::new();
    assert_eq!(b.len(), 0);
    assert_eq!(b.asize(), 0);
    assert!(!b.is_oom());
    assert_eq!(b.byte_at(0), 0);
}

#[test]
fn grow_rounds_up_to_multiple_of_eight() {
    let mut b = git_buf::new();
    b.grow(10).unwrap();
    assert_eq!(b.asize(), 16);
    assert!(b.asize() >= 10);
    assert_eq!(b.asize() % 8, 0);
    assert!(b.asize() > b.len());
}

#[test]
fn grow_applies_three_halves_steps() {
    let mut b = git_buf::new();
    b.grow(16).unwrap();
    assert_eq!(b.asize(), 16);
    // 16 -> 24 -> 36 reaches 33; already a multiple of 8 after rounding 36 up to 40
    b.grow(33).unwrap();
    assert_eq!(b.asize(), 40);
}

#[test]
fn grow_within_capacity_is_a_no_op() {
    let mut b = git_buf::new();
    b.grow(16).unwrap();
    b.grow(5).unwrap();
    assert_eq!(b.asize(), 16);
    b.grow(0).unwrap();
    assert_eq!(b.asize(), 16);
}

#[test]
fn set_copies_bytes_and_terminates() {
    let mut b = git_buf::new();
    b.set(b"abc").unwrap();
    assert_eq!(b.len(), 3);
    assert!(b.asize() >= 4);
    assert_eq!(content(&b), b"abc".to_vec());
    // the byte immediately following the logical length is zero
    assert_eq!(b.byte_at(3), 0);
}

#[test]
fn set_empty_clears() {
    let mut b = git_buf::new();
    b.set(b"abc").unwrap();
    let asize = b.asize();
    b.set(b"").unwrap();
    assert_eq!(b.len(), 0);
    assert_eq!(b.asize(), asize);
    assert_eq!(b.byte_at(0), 0);
}

#[test]
fn clear_keeps_allocation_and_rewrites_terminator() {
    let mut b = git_buf::new();
    b.set(b"abc").unwrap();
    b.clear();
    assert_eq!(b.len(), 0);
    assert_eq!(b.asize(), 8);
    assert_eq!(b.byte_at(0), 0);
}

#[test]
fn free_releases_and_resets() {
    let mut b = git_buf::new();
    b.set(b"abc").unwrap();
    b.free();
    assert_eq!(b.len(), 0);
    assert_eq!(b.asize(), 0);
    assert!(!b.is_oom());
}

#[test]
fn grow_by_reserves_beyond_length() {
    let mut b = git_buf::new();
    b.set(b"abc").unwrap();
    assert_eq!(b.asize(), 8);
    // target 13 from capacity 8: 8 -> 12 -> 18, rounded up to 24
    b.grow_by(10).unwrap();
    assert_eq!(b.asize(), 24);
    assert_eq!(content(&b), b"abc".to_vec());
    assert_eq!(b.byte_at(3), 0);
}

#[test]
fn overflowing_growth_latches_out_of_memory() {
    let mut b = git_buf::new();
    assert_eq!(b.grow(usize::MAX), Err(GitError::OutOfMemory));
    assert!(b.is_oom());
    // the latched error is sticky and identical on every further attempt
    assert_eq!(b.grow(16), Err(GitError::OutOfMemory));
    assert_eq!(b.grow(16), Err(GitError::OutOfMemory));
    assert!(b.is_oom());
    assert_eq!(b.set(b"abc"), Err(GitError::OutOfMemory));
}

#[test]
fn try_grow_without_latching_leaves_buffer_usable() {
    let mut b = git_buf::new();
    b.set(b"abc").unwrap();
    assert_eq!(b.try_grow(usize::MAX, false), Err(GitError::OutOfMemory));
    assert!(!b.is_oom());
    assert_eq!(content(&b), b"abc".to_vec());
    // growth starts from the current capacity 8: 8 -> 12 -> 18, rounded to 24
    b.grow(16).unwrap();
    assert_eq!(b.asize(), 24);
}

#[test]
fn free_resets_the_latched_state() {
    let mut b = git_buf::new();
    let _ = b.grow(usize::MAX);
    assert!(b.is_oom());
    b.free();
    assert!(!b.is_oom());
    b.set(b"ok").unwrap();
    assert_eq!(content(&b), b"ok".to_vec());
}

#[test]
fn init_resets_and_reserves_hint() {
    let mut b = git_buf::new();
    let _ = b.grow(usize::MAX);
    assert!(b.is_oom());
    b.init(100).unwrap();
    assert!(!b.is_oom());
    assert_eq!(b.len(), 0);
    assert_eq!(b.asize(), 104);
    assert_eq!(b.byte_at(0), 0);
}

#[test]
fn growing_a_borrowed_buffer_is_refused() {
    let mut b = git_buf::borrowed(vec![1u8, 2, 3]);
    assert_eq!(b.asize(), 0);
    assert_eq!(b.len(), 3);
    assert_eq!(b.grow(10), Err(GitError::InvalidArgument));
    assert_eq!(b.grow_by(1), Err(GitError::InvalidArgument));
    assert_eq!(b.set(b"xy"), Err(GitError::InvalidArgument));
    // the view is untouched by the refusals
    assert_eq!(b.len(), 3);
    assert_eq!(content(&b), vec![1u8, 2, 3]);
}

#[test]
fn sanitize_restores_terminator_after_raw_writes() {
    let mut b = git_buf::new();
    b.set(b"abcd").unwrap();
    // external code writes through the raw view and fixes the length by hand
    b.write_byte(0, b'x');
    b.write_byte(1, b'y');
    b.set_length(2);
    assert_eq!(b.byte_at(2), b'c');
    b.sanitize();
    assert_eq!(b.byte_at(2), 0);
    assert_eq!(content(&b), b"xy".to_vec());
}
