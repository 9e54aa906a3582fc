//! The growable buffer: an owned, resizable, NUL-terminated byte sequence
//! with explicit growth and a latched out-of-memory state.
//!
//! The buffer is a state machine over four stores. `Empty` stands for the
//! process-wide one-byte zero sentinel that every fresh buffer points at;
//! `Owned` is a heap allocation the buffer may grow and free; `Borrowed` is
//! a read-only view of externally owned bytes (capacity reads as zero while
//! the length does not) that must never be reallocated or freed here; `Oom`
//! is the distinct latched-failure sentinel. Once latched, every growth
//! attempt fails identically, without touching the allocator, until the
//! buffer is re-initialized or freed.

use vstd::prelude::*;
use vstd::slice::slice_index_get;

use crate::errors::GitError;

verus! {

/// Repeated 1.5x growth from `cur` until the target is reached — the loop
/// of the growth algorithm, each step taking `new` to `2*new - new/2`.
/// `None` where the doubling would overflow the machine word; the growth
/// never starts from a non-positive size.
pub open spec fn grown_from(cur: int, target: int) -> Option<int>
    decreases (if cur < target {
        target - cur
    } else {
        0
    }),
{
    if cur <= 0 {
        None
    } else if cur >= target {
        Some(cur)
    } else if 2 * cur > usize::MAX as int {
        None
    } else {
        grown_from(2 * cur - cur / 2, target)
    }
}

/// Rounding up to the next multiple of 8, the final step of the growth
/// computation; `None` where adding 7 would overflow the machine word.
pub open spec fn rounded8(g: int) -> Option<int> {
    if g + 7 > usize::MAX as int {
        None
    } else {
        Some(((g + 7) / 8) * 8)
    }
}

/// The capacity the growth algorithm computes for a buffer of owned
/// capacity `cur` (zero for none) asked to reach `target`: 1.5x growth from
/// the current capacity — or from the target where there is none — then
/// rounding up to a multiple of 8. `None` on arithmetic overflow, which the
/// buffer reports as out-of-memory.
pub open spec fn grown_capacity(cur: int, target: int) -> Option<int> {
    let start: int = if cur == 0 {
        target
    } else {
        cur
    };
    match grown_from(start, target) {
        Some(g) => rounded8(g),
        None => None,
    }
}

proof fn lemma_grown_from(cur: int, target: int)
    requires
        1 <= cur,
        grown_from(cur, target) is Some,
    ensures
        grown_from(cur, target)->Some_0 >= target,
        grown_from(cur, target)->Some_0 >= cur,
    decreases (if cur < target {
        target - cur
    } else {
        0
    }),
{
    if cur >= target {
    } else {
        lemma_grown_from(2 * cur - cur / 2, target);
    }
}

/// What the growth computation promises whenever it succeeds: a capacity no
/// smaller than the target, no smaller than the capacity grown from, and a
/// multiple of 8 — so a successful grow always reserves room for the
/// terminator beyond the current length.
pub proof fn lemma_grown_capacity(cur: int, target: int)
    requires
        0 <= cur,
        1 <= target,
        grown_capacity(cur, target) is Some,
    ensures
        grown_capacity(cur, target)->Some_0 >= target,
        grown_capacity(cur, target)->Some_0 >= cur,
        grown_capacity(cur, target)->Some_0 % 8 == 0,
{
    let start: int = if cur == 0 {
        target
    } else {
        cur
    };
    lemma_grown_from(start, target);
    let g = grown_from(start, target)->Some_0;
    assert(((g + 7) / 8) * 8 >= g && (((g + 7) / 8) * 8) % 8 == 0) by (nonlinear_arith)
        requires
            g >= 1,
    ;
}

/// What a buffer's data pointer designates.
pub enum BufStore {
    /// The shared empty sentinel: no allocation, one readable zero byte.
    Empty,
    /// An owned heap allocation; its length is the buffer's capacity.
    Owned(Vec<u8>),
    /// A view over externally owned bytes; read-only for this component.
    Borrowed(Vec<u8>),
    /// The latched allocation-failure sentinel: one readable zero byte.
    Oom,
}

/// A growable, always-terminated byte buffer with explicit growth and a
/// latched out-of-memory state. Exclusively owned and mutated in place by a
/// single owner.
pub struct git_buf {
    store: BufStore,
    size: usize,
}

impl git_buf {
    /// Whether the buffer is latched in the out-of-memory state.
    pub closed spec fn oom_state(&self) -> bool {
        self.store is Oom
    }

    /// Whether the buffer is a borrowed view over foreign memory.
    pub closed spec fn borrowed_state(&self) -> bool {
        self.store is Borrowed
    }

    /// Whether the buffer owns a heap allocation.
    pub closed spec fn owned_state(&self) -> bool {
        self.store is Owned
    }

    /// Whether the buffer is in the shared empty state.
    pub closed spec fn empty_state(&self) -> bool {
        self.store is Empty
    }

    /// The allocation size: positive only for an owned allocation. A
    /// borrowed view reads as capacity zero although its length is not.
    pub closed spec fn capacity(&self) -> int {
        match self.store {
            BufStore::Owned(v) => v.len() as int,
            _ => 0,
        }
    }

    /// The logical length.
    pub closed spec fn length(&self) -> int {
        self.size as int
    }

    /// Every byte reachable through the buffer's pointer: the whole owned
    /// allocation, the viewed bytes of a borrowed buffer, or the single zero
    /// byte of the empty and out-of-memory sentinels.
    pub closed spec fn storage(&self) -> Seq<u8> {
        match self.store {
            BufStore::Owned(v) => v@,
            BufStore::Borrowed(v) => v@,
            _ => seq![0u8],
        }
    }

    /// The buffer's content: the first `length` stored bytes.
    pub open spec fn bytes(&self) -> Seq<u8> {
        self.storage().subrange(0, self.length())
    }

    /// Structural well-formedness, established by every constructor and
    /// preserved by every operation: the empty state has length zero, an
    /// owned allocation is non-empty and at least as large as the length,
    /// and a borrowed view's storage is exactly its (non-zero) length. In
    /// the latched state capacity and length are meaningless.
    pub closed spec fn wf(&self) -> bool {
        match self.store {
            BufStore::Empty => self.size == 0,
            BufStore::Owned(v) => 0 < v.len() && self.size <= v.len(),
            BufStore::Borrowed(v) => 0 < self.size && v.len() == self.size,
            BufStore::Oom => true,
        }
    }

    /// The terminator invariant: whenever a stored byte follows the logical
    /// length, the byte at the length offset is zero.
    pub open spec fn terminated(&self) -> bool {
        self.length() < self.storage().len() ==> self.storage()[self.length()] == 0
    }

    /// A fresh buffer: the empty state, no allocation, length zero.
    pub fn new() -> (b: git_buf)
        ensures
            b.wf(),
            b.empty_state(),
            !b.oom_state(),
            !b.borrowed_state(),
            b.capacity() == 0,
            b.length() == 0,
            b.terminated(),
    {
        git_buf { store: BufStore::Empty, size: 0 }
    }

    /// A borrowed view over externally owned bytes: capacity reads as zero
    /// while the length does not, which marks the buffer as one this
    /// component may read but never grow or free.
    pub fn borrowed(data: Vec<u8>) -> (b: git_buf)
        requires
            data@.len() > 0,
        ensures
            b.wf(),
            b.borrowed_state(),
            b.capacity() == 0,
            b.length() == data@.len(),
            b.bytes() == data@,
            b.terminated(),
    {
        let n = data.len();
        let b = git_buf { store: BufStore::Borrowed(data), size: n };
        proof {
            assert(b.bytes() =~= b.storage());
        }
        b
    }

    /// The logical length.
    pub fn len(&self) -> (n: usize)
        ensures
            n == self.length(),
    {
        self.size
    }

    /// The allocation size: zero for the empty and latched sentinels and
    /// for a borrowed view.
    pub fn asize(&self) -> (n: usize)
        ensures
            n == self.capacity(),
    {
        match &self.store {
            BufStore::Owned(v) => v.len(),
            _ => 0,
        }
    }

    /// True iff the buffer's pointer is the out-of-memory sentinel.
    pub fn is_oom(&self) -> (r: bool)
        ensures
            r == self.oom_state(),
    {
        match self.store {
            BufStore::Oom => true,
            _ => false,
        }
    }

    /// Reads one byte of the reachable storage; the terminator and the
    /// single byte of the sentinels are readable like any content byte.
    pub fn byte_at(&self, i: usize) -> (b: u8)
        requires
            i < self.storage().len(),
        ensures
            b == self.storage()[i as int],
    {
        match &self.store {
            BufStore::Owned(v) => v[i],
            BufStore::Borrowed(v) => v[i],
            _ => 0u8,
        }
    }

    /// The four pointer states are mutually exclusive: in particular the
    /// latched out-of-memory sentinel is distinct from the empty sentinel
    /// and from any owned allocation or borrowed view.
    pub proof fn lemma_states_distinct(&self)
        ensures
            self.oom_state() ==> !self.empty_state() && !self.owned_state()
                && !self.borrowed_state(),
            self.empty_state() ==> !self.owned_state() && !self.borrowed_state()
                && !self.oom_state(),
            self.owned_state() ==> !self.borrowed_state(),
            self.empty_state() || self.owned_state() || self.borrowed_state() || self.oom_state(),
    {
    }

    /// How much storage a well-formed buffer's pointer reaches, by state:
    /// the whole allocation of an owned buffer, exactly the viewed bytes of
    /// a borrowed one, and the single zero byte of the empty and latched
    /// sentinels. This is what lets a caller bound `byte_at`, and it places
    /// the length within the storage everywhere but in the latched state,
    /// whose length is meaningless.
    pub proof fn lemma_storage_len(&self)
        requires
            self.wf(),
        ensures
            self.owned_state() ==> self.storage().len() == self.capacity() && 0 < self.capacity()
                && self.length() <= self.capacity(),
            self.borrowed_state() ==> self.storage().len() == self.length() && 0 < self.length()
                && self.capacity() == 0,
            self.empty_state() ==> self.storage().len() == 1 && self.length() == 0
                && self.capacity() == 0,
            self.oom_state() ==> self.storage().len() == 1 && self.capacity() == 0,
    {
    }

    /// After any successful grow the terminator invariant holds, provided
    /// it held before the call: actual growth rewrites the terminator, and
    /// a grow whose target is already within capacity leaves the buffer
    /// untouched, so it preserves the invariant without establishing it (a
    /// buffer hand-mutated through the raw writers owes it to `sanitize`).
    pub proof fn lemma_grow_terminates(
        pre: git_buf,
        post: git_buf,
        target_size: int,
        mark_oom: bool,
        r: Result<(), GitError>,
    )
        requires
            pre.terminated(),
            Self::grow_post(pre, post, target_size, mark_oom, r),
            r is Ok,
        ensures
            post.terminated(),
    {
    }

    /// The contract every growth entry point meets. A zero target stands
    /// for the current length. A latched buffer fails identically, without
    /// touching the allocator or the buffer; a borrowed view is refused as
    /// an invalid argument; a target within capacity is a successful no-op.
    /// Otherwise the computed capacity is taken — at least the target, a
    /// multiple of 8, with room for the terminator — and the content, the
    /// length and the terminator are intact; arithmetic overflow of the
    /// computation reports out-of-memory, latching the buffer only where
    /// `mark_oom` asks for it.
    pub open spec fn grow_post(
        pre: git_buf,
        post: git_buf,
        target_size: int,
        mark_oom: bool,
        r: Result<(), GitError>,
    ) -> bool {
        let t2: int = if target_size == 0 {
            pre.length()
        } else {
            target_size
        };
        match r {
            Ok(()) => {
                &&& !pre.oom_state() && !pre.borrowed_state()
                &&& if t2 <= pre.capacity() {
                    post == pre
                } else {
                    &&& Some(post.capacity()) == grown_capacity(pre.capacity(), t2)
                    &&& post.owned_state()
                    &&& !post.oom_state()
                    &&& !post.borrowed_state()
                    &&& post.capacity() >= t2
                    &&& post.capacity() % 8 == 0
                    &&& post.capacity() > post.length()
                    &&& post.length() == pre.length()
                    &&& post.bytes() == pre.bytes()
                    &&& post.terminated()
                }
            },
            Err(e) => {
                &&& pre.oom_state() ==> e == GitError::OutOfMemory && post == pre
                &&& !pre.oom_state() && pre.borrowed_state() ==> e == GitError::InvalidArgument
                    && post == pre
                &&& !pre.oom_state() && !pre.borrowed_state() ==> {
                    &&& e == GitError::OutOfMemory
                    &&& t2 > pre.capacity()
                    &&& grown_capacity(pre.capacity(), t2) is None
                    &&& if mark_oom {
                        post.oom_state()
                    } else {
                        post == pre
                    }
                }
            },
        }
    }

    /// Ensures capacity of at least `target_size` bytes — of at least the
    /// current length where `target_size` is zero. On failure the buffer is
    /// latched into the out-of-memory state only where `mark_oom` asks for
    /// it; otherwise it is left untouched so the caller may retry.
    pub fn try_grow(&mut self, target_size: usize, mark_oom: bool) -> (r: Result<(), GitError>)
        requires
            old(self).wf(),
        ensures
            final(self).wf(),
            Self::grow_post(*old(self), *final(self), target_size as int, mark_oom, r),
    {
        match &self.store {
            BufStore::Oom => {
                // The latched state short-circuits without touching the allocator.
                return Err(GitError::OutOfMemory);
            },
            BufStore::Borrowed(_) => {
                // Reallocating foreign memory would be unsafe.
                return Err(GitError::InvalidArgument);
            },
            _ => {},
        }
        let mut target = target_size;
        if target == 0 {
            target = self.size;
        }
        let cap: usize = match &self.store {
            BufStore::Owned(v) => v.len(),
            _ => 0,
        };
        if target <= cap {
            return Ok(());
        }
        let ghost t2 = target as int;
        let mut new_size: usize = if cap == 0 {
            target
        } else {
            cap
        };
        let ghost start = new_size as int;
        // Grow the size by 1.5 until it is big enough to fit the target;
        // the step is checked so that overflow turns into a clean failure.
        while new_size < target
            invariant
                old(self).wf(),
                *self == *old(self),
                !self.oom_state(),
                !self.borrowed_state(),
                cap == self.capacity(),
                t2 == (if target_size == 0 {
                    old(self).length()
                } else {
                    target_size as int
                }),
                target == t2,
                cap < t2,
                start == (if cap == 0 {
                    t2
                } else {
                    cap as int
                }),
                1 <= new_size,
                grown_from(start, t2) == grown_from(new_size as int, t2),
            decreases (if new_size < target {
                target - new_size
            } else {
                0
            }),
        {
            if new_size > usize::MAX / 2 {
                if mark_oom {
                    self.store = BufStore::Oom;
                }
                return Err(GitError::OutOfMemory);
            }
            new_size = 2 * new_size - new_size / 2;
        }
        // Round the allocation up to a multiple of 8.
        if new_size > usize::MAX - 7 {
            if mark_oom {
                self.store = BufStore::Oom;
            }
            return Err(GitError::OutOfMemory);
        }
        let rounded: usize = ((new_size + 7) / 8) * 8;
        proof {
            assert(rounded <= new_size + 7 && rounded >= new_size && rounded as int % 8 == 0)
                by (nonlinear_arith)
                requires
                    1 <= new_size <= usize::MAX - 7,
                    rounded == ((new_size + 7) / 8) * 8,
            ;
            assert(Some(rounded as int) == grown_capacity(cap as int, t2));
        }
        // Reallocate: an owned block keeps its leading bytes, a fresh block
        // replaces the empty sentinel.
        match &mut self.store {
            BufStore::Owned(v) => {
                v.resize(rounded, 0u8);
            },
            _ => {
                self.store = BufStore::Owned(vec![0u8; rounded]);
            },
        }
        // Always terminate at the (unchanged) logical length.
        match &mut self.store {
            BufStore::Owned(v) => {
                v[self.size] = 0u8;
            },
            _ => {},
        }
        proof {
            assert(final(self).bytes() =~= old(self).bytes());
        }
        Ok(())
    }

    /// Ensures capacity of at least `size` bytes, latching the buffer into
    /// the out-of-memory state on failure.
    pub fn grow(&mut self, size: usize) -> (r: Result<(), GitError>)
        requires
            old(self).wf(),
        ensures
            final(self).wf(),
            Self::grow_post(*old(self), *final(self), size as int, true, r),
    {
        self.try_grow(size, true)
    }

    /// Grows the buffer to hold `additional_size` more bytes beyond the
    /// current length, with checked addition; overflow of the sum reports
    /// out-of-memory without mutating the buffer.
    pub fn grow_by(&mut self, additional_size: usize) -> (r: Result<(), GitError>)
        requires
            old(self).wf(),
        ensures
            final(self).wf(),
            if old(self).length() + additional_size > usize::MAX {
                r == Err::<(), GitError>(GitError::OutOfMemory) && *final(self) == *old(self)
            } else {
                Self::grow_post(
                    *old(self),
                    *final(self),
                    old(self).length() + additional_size,
                    true,
                    r,
                )
            },
    {
        let new_size = match self.size.checked_add(additional_size) {
            Some(n) => n,
            None => {
                return Err(GitError::OutOfMemory);
            },
        };
        self.grow(new_size)
    }

    /// Resets to the empty state; for a non-zero hint, immediately grows to
    /// at least `initial_size` bytes. A growth failure (only possible by
    /// arithmetic overflow on an adversarial hint) leaves the buffer
    /// latched in the out-of-memory state.
    pub fn init(&mut self, initial_size: usize) -> (r: Result<(), GitError>)
        ensures
            final(self).wf(),
            match r {
                Ok(()) => {
                    &&& !final(self).oom_state() && !final(self).borrowed_state()
                    &&& final(self).length() == 0
                    &&& final(self).terminated()
                    &&& if initial_size == 0 {
                        final(self).empty_state() && final(self).capacity() == 0
                    } else {
                        &&& final(self).owned_state()
                        &&& Some(final(self).capacity()) == grown_capacity(0, initial_size as int)
                        &&& final(self).capacity() >= initial_size
                        &&& final(self).capacity() % 8 == 0
                    }
                },
                Err(e) => {
                    &&& e == GitError::OutOfMemory
                    &&& initial_size > 0
                    &&& grown_capacity(0, initial_size as int) is None
                    &&& final(self).oom_state()
                },
            },
    {
        self.store = BufStore::Empty;
        self.size = 0;
        if initial_size != 0 {
            match self.grow(initial_size) {
                Ok(()) => {},
                Err(e) => {
                    return Err(e);
                },
            }
        }
        Ok(())
    }

    /// Sets the length to zero without releasing the allocation, and, where
    /// capacity allows, rewrites the terminator at offset zero. A borrowed
    /// view abandons the foreign bytes and returns to the empty state; the
    /// latched state is kept (only `free` or `init` resets it).
    pub fn clear(&mut self)
        requires
            old(self).wf(),
        ensures
            final(self).wf(),
            final(self).terminated(),
            final(self).length() == 0,
            final(self).oom_state() == old(self).oom_state(),
            final(self).borrowed_state() == false,
            final(self).capacity() == if old(self).borrowed_state() {
                0
            } else {
                old(self).capacity()
            },
            old(self).owned_state() ==> final(self).storage() == old(self).storage().update(
                0,
                0u8,
            ),
    {
        self.size = 0;
        match &mut self.store {
            BufStore::Owned(v) => {
                v[0] = 0u8;
            },
            BufStore::Borrowed(_) => {
                self.store = BufStore::Empty;
            },
            _ => {},
        }
    }

    /// Overwrites the content with a copy of `data`. Empty input clears the
    /// buffer (and succeeds even on a latched buffer, as clearing does);
    /// otherwise the buffer grows to the data plus its terminator, the
    /// bytes are copied, and the length and terminator are set. Growth
    /// failure propagates without partial mutation of the length.
    pub fn set(&mut self, data: &[u8]) -> (r: Result<(), GitError>)
        requires
            old(self).wf(),
        ensures
            final(self).wf(),
            match r {
                Ok(()) => if data@.len() == 0 {
                    &&& final(self).length() == 0
                    &&& final(self).terminated()
                    &&& final(self).oom_state() == old(self).oom_state()
                    &&& !final(self).borrowed_state()
                    &&& final(self).capacity() == (if old(self).borrowed_state() {
                        0int
                    } else {
                        old(self).capacity()
                    })
                } else {
                    &&& !old(self).oom_state() && !old(self).borrowed_state()
                    &&& final(self).owned_state()
                    &&& final(self).length() == data@.len()
                    &&& final(self).bytes() == data@
                    &&& final(self).capacity() >= data@.len() + 1
                    &&& final(self).terminated()
                },
                Err(e) => {
                    &&& data@.len() > 0
                    &&& if data@.len() + 1 > usize::MAX {
                        // the checked size addition fails before anything else
                        e == GitError::OutOfMemory && *final(self) == *old(self)
                    } else {
                        &&& old(self).oom_state() ==> e == GitError::OutOfMemory && *final(self)
                            == *old(self)
                        &&& !old(self).oom_state() && old(self).borrowed_state() ==> e
                            == GitError::InvalidArgument && *final(self) == *old(self)
                        &&& !old(self).oom_state() && !old(self).borrowed_state() ==> {
                            &&& e == GitError::OutOfMemory
                            &&& data@.len() + 1 > old(self).capacity()
                            &&& grown_capacity(old(self).capacity(), data@.len() + 1 as int)
                                is None
                            &&& final(self).oom_state()
                        }
                    }
                },
            },
    {
        let len = data.len();
        if len == 0 {
            self.clear();
            return Ok(());
        }
        let alloclen = match len.checked_add(1) {
            Some(a) => a,
            None => {
                return Err(GitError::OutOfMemory);
            },
        };
        match self.grow(alloclen) {
            Ok(()) => {},
            Err(e) => {
                return Err(e);
            },
        }
        match &mut self.store {
            BufStore::Owned(v) => {
                let ghost vlen = v@.len();
                let mut i: usize = 0;
                while i < len
                    invariant
                        0 <= i <= len,
                        len == data@.len(),
                        len < v@.len() == vlen,
                        forall|j: int| 0 <= j < i ==> v@[j] == data@[j],
                    decreases len - i,
                {
                    v[i] = *slice_index_get(data, i);
                    i = i + 1;
                }
                v[len] = 0u8;
            },
            _ => {
                proof {
                    assert(false);
                }
            },
        }
        self.size = len;
        proof {
            assert(final(self).bytes() =~= data@);
        }
        Ok(())
    }

    /// Re-establishes the terminator invariant on a buffer whose storage or
    /// length may have been updated by hand through the raw mutators: where
    /// a stored byte follows the logical length, it is rewritten to zero.
    pub fn sanitize(&mut self)
        requires
            old(self).wf(),
        ensures
            final(self).wf(),
            final(self).terminated(),
            final(self).length() == old(self).length(),
            final(self).capacity() == old(self).capacity(),
            final(self).oom_state() == old(self).oom_state(),
            final(self).borrowed_state() == old(self).borrowed_state(),
            final(self).bytes() == old(self).bytes(),
    {
        let size = self.size;
        match &mut self.store {
            BufStore::Owned(v) => {
                if size < v.len() {
                    v[size] = 0u8;
                }
            },
            _ => {},
        }
        proof {
            assert(final(self).bytes() =~= old(self).bytes());
        }
    }

    /// Writes one byte directly into the owned storage, as external code
    /// does through the buffer's raw pointer. May overwrite the terminator;
    /// the writer is expected to call `sanitize` when it is done.
    pub fn write_byte(&mut self, i: usize, b: u8)
        requires
            old(self).wf(),
            old(self).owned_state(),
            i < old(self).capacity(),
        ensures
            final(self).wf(),
            final(self).owned_state(),
            final(self).storage() == old(self).storage().update(i as int, b),
            final(self).length() == old(self).length(),
            final(self).capacity() == old(self).capacity(),
    {
        match &mut self.store {
            BufStore::Owned(v) => {
                v[i] = b;
            },
            _ => {},
        }
    }

    /// Updates the length field by hand, as external code does after
    /// writing through the buffer's raw pointer. Does not maintain the
    /// terminator; the writer is expected to call `sanitize` when it is
    /// done.
    pub fn set_length(&mut self, n: usize)
        requires
            old(self).wf(),
            old(self).owned_state(),
            n <= old(self).capacity(),
        ensures
            final(self).wf(),
            final(self).owned_state(),
            final(self).length() == n,
            final(self).capacity() == old(self).capacity(),
            final(self).storage() == old(self).storage(),
    {
        self.size = n;
    }

    /// Releases the owned allocation, if any, and reinitializes to the
    /// empty state. This is also the way out of the latched and borrowed
    /// states; a borrowed view's foreign bytes are abandoned, never freed.
    pub fn free(&mut self)
        ensures
            final(self).wf(),
            final(self).empty_state(),
            !final(self).oom_state(),
            final(self).capacity() == 0,
            final(self).length() == 0,
            final(self).terminated(),
    {
        self.store = BufStore::Empty;
        self.size = 0;
    }
}

} // verus!
