//! Low-level primitives for a content-addressable object store: a growable,
//! always-terminated byte buffer with a latched out-of-memory state, a
//! page-chained bump allocator for same-size records, and a fixed-width
//! binary object identifier with a hex codec and prefix-aware ordering.

#![allow(non_camel_case_types)]

pub mod buffer;
pub mod errors;
pub mod oid;
pub mod pool;
