//! The arena pool: a page-chained bump allocator for many same-size (or
//! byte-granularity) allocations, freed only as a whole.
//!
//! Allocations are carved monotonically from the current (most recently
//! added) page only; earlier pages are retained solely so their memory is
//! released together on `clear` — their leftover bytes are permanently
//! unusable, bounded internal fragmentation traded for constant-time
//! allocation. Pointers handed out stay valid, and never move, until the
//! pool is cleared. Here a pointer is a [`PoolPtr`] handle naming its page,
//! offset and size; the pool proves that every handle's range lies within a
//! single page and is disjoint from every other range it has handed out.

use vstd::prelude::*;

verus! {

/// Bytes of bookkeeping a page carries beside its storage; a new page fails
/// cleanly where adding this overhead to its size would overflow.
pub const PAGE_HEADER_SIZE: u32 = 24;

/// The platform memory page size the pool assumes by default.
pub const DEFAULT_PAGE_SIZE: u32 = 4096;

/// One page of pool storage: a block whose front is carved off
/// monotonically, never reused until the whole pool is cleared.
pub struct Page {
    size: u32,
    avail: u32,
    data: Vec<u8>,
}

impl Page {
    /// Bytes of storage present in the page.
    pub closed spec fn capacity(&self) -> int {
        self.size as int
    }

    /// Bytes not yet handed out.
    pub closed spec fn remaining(&self) -> int {
        self.avail as int
    }

    /// Bytes handed out so far; allocation advances this watermark.
    pub open spec fn used(&self) -> int {
        self.capacity() - self.remaining()
    }

    /// The page's stored bytes.
    pub closed spec fn bytes(&self) -> Seq<u8> {
        self.data@
    }

    /// What is not yet handed out never exceeds the capacity, and the
    /// storage is exactly as large as the capacity says.
    pub closed spec fn wf(&self) -> bool {
        self.avail <= self.size && self.data@.len() == self.size
    }
}

/// A pointer returned by the pool, as a handle: the page it lies in, the
/// byte offset of its range within that page, and the range's size. The
/// range stays valid, at a stable place, until the pool is cleared.
#[derive(Clone, Copy, Debug, PartialEq, Eq, Structural)]
pub struct PoolPtr {
    pub page: usize,
    pub offset: u32,
    pub size: u32,
}

/// Whether two handles' byte ranges do not overlap: they lie in different
/// pages, or one ends before the other begins.
pub open spec fn ranges_disjoint(a: PoolPtr, b: PoolPtr) -> bool {
    a.page != b.page || a.offset + a.size <= b.offset || b.offset + b.size <= a.offset
}

/// The sizing policy, a pure function of the pool's configuration: for an
/// item size above one, the item size is rounded up to pointer-word
/// alignment and multiplied by the count (array-of-fixed-items mode); for
/// an item size of one, the count itself is rounded up (raw byte-arena
/// mode, used for variable-length data such as strings). `None` where the
/// arithmetic overflows the 32-bit size.
pub open spec fn alloc_size_spec(item_size: int, count: int) -> Option<int> {
    if item_size > 1 {
        if item_size + 7 > u32::MAX {
            None
        } else {
            let rounded: int = ((item_size + 7) / 8) * 8;
            if rounded * count > u32::MAX {
                None
            } else {
                Some(rounded * count)
            }
        }
    } else {
        if count + 7 > u32::MAX {
            None
        } else {
            Some(((count + 7) / 8) * 8)
        }
    }
}

/// The size of the page that must be appended for a request of `size`
/// bytes: the configured page size, or the request where it is larger.
pub open spec fn new_page_size_spec(page_size: int, size: int) -> int {
    if size <= page_size {
        page_size
    } else {
        size
    }
}

/// What handing out the handle `h` for `size` bytes establishes, shared by
/// the allocation entry points: the handle covers exactly the requested
/// bytes, lies within storage of the single current page, is disjoint from
/// every range handed out since the last clear, and every earlier handle
/// stays live in a configuration that is otherwise unchanged.
pub open spec fn alloc_post(pre: git_pool, post: git_pool, size: int, h: PoolPtr) -> bool {
    &&& h.size == size
    &&& post.handle_live(h)
    &&& h.page == post.page_count() - 1
    &&& h.offset + h.size == post.page_used(h.page as int)
    &&& h.offset + h.size <= post.page_capacity(h.page as int)
    &&& post.handles() == pre.handles().push(h)
    &&& forall|k: int|
        0 <= k < pre.handles().len() ==> ranges_disjoint(#[trigger] pre.handles()[k], h)
    &&& forall|g: PoolPtr| pre.handle_live(g) ==> #[trigger] post.handle_live(g)
    &&& pre.page_count() <= post.page_count() <= pre.page_count() + 1
    &&& post.item_size_spec() == pre.item_size_spec()
    &&& post.page_size_spec() == pre.page_size_spec()
    // A page is appended exactly where no current page has room; the new
    // range starts at the fresh page's front, or at the current page's
    // watermark.
    &&& (post.page_count() == pre.page_count() + 1) <==> (pre.page_count() == 0
        || pre.page_remaining(pre.page_count() - 1) < size)
    &&& if post.page_count() == pre.page_count() {
        &&& h.offset == pre.page_used(h.page as int)
        &&& post.page_capacity(h.page as int) == pre.page_capacity(h.page as int)
    } else {
        &&& h.offset == 0
        &&& post.page_capacity(h.page as int) == new_page_size_spec(pre.page_size_spec(), size)
    }
    // Every other page is untouched.
    &&& forall|p: int|
        0 <= p < pre.page_count() && p != h.page ==> post.page_capacity(p) == pre.page_capacity(
            p,
        ) && post.page_remaining(p) == pre.page_remaining(p)
}

/// When a raw allocation of `size` bytes fails: the current page (if any)
/// lacks room, and sizing the page that would be appended overflows once
/// the header overhead is added.
pub open spec fn alloc_fails(pre: git_pool, size: int) -> bool {
    &&& (pre.page_count() == 0 || pre.page_remaining(pre.page_count() - 1) < size)
    &&& new_page_size_spec(pre.page_size_spec(), size) + PAGE_HEADER_SIZE > u32::MAX
}

/// A page-chained bump allocator. Initialized with an item size (one for a
/// raw byte arena); pages are appended on demand and never removed
/// individually; `clear` releases the whole chain at once.
pub struct git_pool {
    pages: Vec<Page>,
    item_size: u32,
    page_size: u32,
    /// Every handle handed out since the last clear. Ghost bookkeeping for
    /// the disjointness proof: by design the executable state tracks no
    /// per-allocation metadata.
    handed: Ghost<Seq<PoolPtr>>,
}

impl git_pool {
    /// The configured item size.
    pub closed spec fn item_size_spec(&self) -> int {
        self.item_size as int
    }

    /// The configured page size.
    pub closed spec fn page_size_spec(&self) -> int {
        self.page_size as int
    }

    /// How many pages the chain holds.
    pub closed spec fn page_count(&self) -> int {
        self.pages@.len() as int
    }

    /// The storage capacity of page `p`.
    pub closed spec fn page_capacity(&self, p: int) -> int {
        self.pages@[p].capacity()
    }

    /// The bytes of page `p` not yet handed out.
    pub closed spec fn page_remaining(&self, p: int) -> int {
        self.pages@[p].remaining()
    }

    /// The bytes of page `p` handed out so far.
    pub open spec fn page_used(&self, p: int) -> int {
        self.page_capacity(p) - self.page_remaining(p)
    }

    /// The stored bytes of page `p`.
    pub closed spec fn page_bytes(&self, p: int) -> Seq<u8> {
        self.pages@[p].bytes()
    }

    /// Every handle handed out since the last clear, oldest first.
    pub closed spec fn handles(&self) -> Seq<PoolPtr> {
        self.handed@
    }

    /// Whether a handle's range lies inside storage already carved from an
    /// existing page — the ranges a caller may read and write.
    pub open spec fn handle_live(&self, h: PoolPtr) -> bool {
        &&& 0 <= h.page < self.page_count()
        &&& h.offset + h.size <= self.page_used(h.page as int)
    }

    /// Well-formedness: a positive item size, well-formed pages, and every
    /// handle handed out still live and pairwise disjoint.
    pub closed spec fn wf(&self) -> bool {
        &&& self.item_size >= 1
        &&& forall|p: int| 0 <= p < self.pages@.len() ==> (#[trigger] self.pages@[p]).wf()
        &&& forall|k: int|
            0 <= k < self.handed@.len() ==> self.handle_live(#[trigger] self.handed@[k])
        &&& forall|k: int, l: int|
            0 <= k < l < self.handed@.len() ==> ranges_disjoint(
                self.handed@[k],
                self.handed@[l],
            )
    }

    /// Everything the pool has handed out is pairwise disjoint — no two
    /// live allocations ever overlap, and none crosses a page boundary.
    pub proof fn lemma_handles_disjoint(&self)
        requires
            self.wf(),
        ensures
            forall|k: int, l: int|
                0 <= k < self.handles().len() && 0 <= l < self.handles().len() && k != l
                    ==> ranges_disjoint(self.handles()[k], self.handles()[l]),
            forall|k: int|
                0 <= k < self.handles().len() ==> self.handle_live(#[trigger] self.handles()[k]),
    {
        assert forall|k: int, l: int|
            0 <= k < self.handles().len() && 0 <= l < self.handles().len() && k != l implies ranges_disjoint(
            self.handles()[k],
            self.handles()[l],
        ) by {
            if k < l {
            } else {
                assert(ranges_disjoint(self.handles()[l], self.handles()[k]));
            }
        }
    }

    /// A fresh pool for items of `item_size` bytes (one for a raw byte
    /// arena), with the default page size. A zero item size is a
    /// programming error, excluded by contract rather than reported.
    pub fn init(item_size: u32) -> (p: git_pool)
        requires
            item_size >= 1,
        ensures
            p.wf(),
            p.item_size_spec() == item_size,
            p.page_size_spec() == DEFAULT_PAGE_SIZE,
            p.page_count() == 0,
            p.handles() == Seq::<PoolPtr>::empty(),
    {
        Self::init_with_page_size(item_size, DEFAULT_PAGE_SIZE)
    }

    /// A fresh pool with an explicit page size, for a caller that queries
    /// the platform's own memory page size and hands it in.
    pub fn init_with_page_size(item_size: u32, page_size: u32) -> (p: git_pool)
        requires
            item_size >= 1,
        ensures
            p.wf(),
            p.item_size_spec() == item_size,
            p.page_size_spec() == page_size,
            p.page_count() == 0,
            p.handles() == Seq::<PoolPtr>::empty(),
    {
        git_pool { pages: Vec::new(), item_size, page_size, handed: Ghost(Seq::empty()) }
    }

    /// The required bytes for `count` items under the sizing policy;
    /// `None` where the arithmetic overflows.
    pub fn alloc_size(&self, count: u32) -> (r: Option<u32>)
        requires
            self.wf(),
        ensures
            alloc_size_spec(self.item_size_spec(), count as int) == (match r {
                Some(n) => Some(n as int),
                None => None::<int>,
            }),
    {
        if self.item_size > 1 {
            let item: u32 = match self.item_size.checked_add(7) {
                Some(s) => (s / 8) * 8,
                None => {
                    return None;
                },
            };
            item.checked_mul(count)
        } else {
            match count.checked_add(7) {
                Some(s) => Some((s / 8) * 8),
                None => None,
            }
        }
    }

    /// Appends a fresh current page able to hold at least `size` bytes:
    /// the configured page size or the request, whichever is larger. False
    /// only where adding the page header overhead overflows; the pool is
    /// untouched then.
    fn alloc_page(&mut self, size: u32) -> (ok: bool)
        requires
            old(self).wf(),
        ensures
            final(self).wf(),
            final(self).item_size_spec() == old(self).item_size_spec(),
            final(self).page_size_spec() == old(self).page_size_spec(),
            final(self).handles() == old(self).handles(),
            if ok {
                &&& final(self).page_count() == old(self).page_count() + 1
                &&& final(self).page_capacity(old(self).page_count()) == new_page_size_spec(
                    old(self).page_size_spec(),
                    size as int,
                )
                &&& final(self).page_used(old(self).page_count()) == 0
                &&& forall|p: int|
                    0 <= p < old(self).page_count() ==> final(self).page_capacity(p) == old(
                        self,
                    ).page_capacity(p) && final(self).page_used(p) == old(self).page_used(p)
                        && final(self).page_bytes(p) == old(self).page_bytes(p)
            } else {
                &&& *final(self) == *old(self)
                &&& new_page_size_spec(old(self).page_size_spec(), size as int) + PAGE_HEADER_SIZE
                    > u32::MAX
            },
    {
        let new_page_size: u32 = if size <= self.page_size {
            self.page_size
        } else {
            size
        };
        match new_page_size.checked_add(PAGE_HEADER_SIZE) {
            None => false,
            Some(_) => {
                let data = vec![0u8; new_page_size as usize];
                self.pages.push(Page { size: new_page_size, avail: new_page_size, data });
                true
            },
        }
    }

    /// Bump-allocates `size` raw bytes, appending a new page where the
    /// current one lacks room (or none exists). The returned handle's range
    /// lies within a single page and is disjoint from every range handed
    /// out since the last clear; every earlier handle stays live and no
    /// stored byte changes. `None` only on arithmetic overflow while sizing
    /// a new page; the pool is unchanged then and remains usable for
    /// smaller requests.
    pub fn alloc_bytes(&mut self, size: u32) -> (r: Option<PoolPtr>)
        requires
            old(self).wf(),
        ensures
            final(self).wf(),
            match r {
                Some(h) => {
                    &&& alloc_post(*old(self), *final(self), size as int, h)
                    &&& forall|p: int|
                        0 <= p < old(self).page_count() ==> final(self).page_bytes(p) == old(
                            self,
                        ).page_bytes(p)
                },
                None => {
                    &&& *final(self) == *old(self)
                    &&& alloc_fails(*old(self), size as int)
                },
            },
    {
        let n = self.pages.len();
        let need_new: bool = n == 0 || self.pages[n - 1].avail < size;
        if need_new {
            if !self.alloc_page(size) {
                return None;
            }
        }
        let idx = self.pages.len() - 1;
        let offset: u32 = self.pages[idx].size - self.pages[idx].avail;
        let new_avail: u32 = self.pages[idx].avail - size;
        self.pages[idx].avail = new_avail;
        let h = PoolPtr { page: idx, offset, size };
        proof {
            self.handed@ = self.handed@.push(h);
        }
        Some(h)
    }

    /// Allocates room for `items` items under the sizing policy and bump-
    /// allocates it, appending a new page where the current one lacks room.
    /// The returned handle's range lies within a single page and is
    /// disjoint from every range handed out since the last clear. `None`
    /// exactly where the sizing arithmetic overflows or a needed new page
    /// cannot be sized; the pool is unchanged then.
    pub fn malloc(&mut self, items: u32) -> (r: Option<PoolPtr>)
        requires
            old(self).wf(),
        ensures
            final(self).wf(),
            match alloc_size_spec(old(self).item_size_spec(), items as int) {
                None => r is None && *final(self) == *old(self),
                Some(size) => match r {
                    Some(h) => {
                        &&& alloc_post(*old(self), *final(self), size, h)
                        &&& forall|p: int|
                            0 <= p < old(self).page_count() ==> final(self).page_bytes(p) == old(
                                self,
                            ).page_bytes(p)
                    },
                    None => {
                        &&& *final(self) == *old(self)
                        &&& alloc_fails(*old(self), size)
                    },
                },
            },
    {
        let size = match self.alloc_size(items) {
            Some(s) => s,
            None => {
                return None;
            },
        };
        self.alloc_bytes(size)
    }

    /// `malloc` followed by zero-filling the returned range; fails
    /// identically, with the pool unchanged. Bytes of every other range are
    /// untouched.
    pub fn mallocz(&mut self, items: u32) -> (r: Option<PoolPtr>)
        requires
            old(self).wf(),
        ensures
            final(self).wf(),
            match alloc_size_spec(old(self).item_size_spec(), items as int) {
                None => r is None && *final(self) == *old(self),
                Some(size) => match r {
                    Some(h) => {
                        &&& alloc_post(*old(self), *final(self), size, h)
                        &&& forall|i: int|
                            h.offset <= i < h.offset + h.size ==> final(self).page_bytes(
                                h.page as int,
                            )[i] == 0
                        &&& forall|p: int|
                            0 <= p < old(self).page_count() && p != h.page
                                ==> final(self).page_bytes(p) == old(self).page_bytes(p)
                        &&& h.page < old(self).page_count() ==> forall|i: int|
                            0 <= i < old(self).page_bytes(h.page as int).len() && !(h.offset <= i
                                < h.offset + h.size) ==> final(self).page_bytes(h.page as int)[i]
                                == old(self).page_bytes(h.page as int)[i]
                    },
                    None => {
                        &&& *final(self) == *old(self)
                        &&& alloc_fails(*old(self), size)
                    },
                },
            },
    {
        let r = self.malloc(items);
        let h = match r {
            Some(h) => h,
            None => {
                return None;
            },
        };
        let ghost mid = *self;
        let mut i: u32 = 0;
        while i < h.size
            invariant
                0 <= i <= h.size,
                self.wf(),
                self.handle_live(h),
                self.page_count() == mid.page_count(),
                self.item_size_spec() == mid.item_size_spec(),
                self.page_size_spec() == mid.page_size_spec(),
                self.handles() == mid.handles(),
                forall|p: int|
                    0 <= p < self.page_count() ==> self.page_capacity(p) == mid.page_capacity(p)
                        && self.page_remaining(p) == mid.page_remaining(p),
                forall|p: int|
                    0 <= p < self.page_count() && p != h.page ==> self.page_bytes(p)
                        == mid.page_bytes(p),
                self.page_bytes(h.page as int).len() == mid.page_bytes(h.page as int).len(),
                forall|j: int|
                    h.offset <= j < h.offset + i ==> self.page_bytes(h.page as int)[j] == 0,
                forall|j: int|
                    0 <= j < mid.page_bytes(h.page as int).len() && !(h.offset <= j < h.offset
                        + i) ==> self.page_bytes(h.page as int)[j] == mid.page_bytes(
                        h.page as int,
                    )[j],
            decreases h.size - i,
        {
            self.write_byte(&h, i, 0u8);
            i = i + 1;
        }
        proof {
            let pre = *old(self);
            assert forall|g: PoolPtr| pre.handle_live(g) implies #[trigger] self.handle_live(
                g,
            ) by {
                assert(mid.handle_live(g));
                assert(self.page_used(g.page as int) == mid.page_used(g.page as int));
            }
            if h.page < pre.page_count() {
                assert(mid.page_bytes(h.page as int) == pre.page_bytes(h.page as int));
            }
            assert forall|p: int|
                0 <= p < pre.page_count() && p != h.page implies self.page_bytes(p)
                == pre.page_bytes(p) by {
                assert(self.page_bytes(p) == mid.page_bytes(p));
            }
        }
        Some(h)
    }

    /// Reads one byte through a handle, `i` bytes into its range.
    pub fn read_byte(&self, h: &PoolPtr, i: u32) -> (b: u8)
        requires
            self.wf(),
            self.handle_live(*h),
            i < h.size,
        ensures
            b == self.page_bytes(h.page as int)[h.offset + i],
    {
        proof {
            assert(self.pages@[h.page as int].wf());
        }
        let off: usize = (h.offset + i) as usize;
        self.pages[h.page].data[off]
    }

    /// Writes one byte through a handle, `i` bytes into its range; no
    /// other stored byte, page or handle changes.
    pub fn write_byte(&mut self, h: &PoolPtr, i: u32, b: u8)
        requires
            old(self).wf(),
            old(self).handle_live(*h),
            i < h.size,
        ensures
            final(self).wf(),
            final(self).handle_live(*h),
            final(self).item_size_spec() == old(self).item_size_spec(),
            final(self).page_size_spec() == old(self).page_size_spec(),
            final(self).page_count() == old(self).page_count(),
            final(self).handles() == old(self).handles(),
            forall|p: int|
                0 <= p < old(self).page_count() ==> final(self).page_capacity(p) == old(
                    self,
                ).page_capacity(p) && final(self).page_remaining(p) == old(self).page_remaining(p),
            forall|g: PoolPtr| old(self).handle_live(g) ==> #[trigger] final(self).handle_live(g),
            final(self).page_bytes(h.page as int) == old(self).page_bytes(h.page as int).update(
                h.offset + i,
                b,
            ),
            forall|p: int|
                0 <= p < old(self).page_count() && p != h.page ==> final(self).page_bytes(p)
                    == old(self).page_bytes(p),
    {
        proof {
            assert(old(self).pages@[h.page as int].wf());
        }
        let off: usize = (h.offset + i) as usize;
        let page: &mut Page = &mut self.pages[h.page];
        page.data[off] = b;
    }

    /// Releases every page back to the system allocator and resets the
    /// pool to no pages. Every pointer previously returned becomes invalid;
    /// the pool tracks no per-allocation metadata to detect this, by
    /// design, and stays usable for fresh allocations.
    pub fn clear(&mut self)
        requires
            old(self).wf(),
        ensures
            final(self).wf(),
            final(self).item_size_spec() == old(self).item_size_spec(),
            final(self).page_size_spec() == old(self).page_size_spec(),
            final(self).page_count() == 0,
            final(self).handles() == Seq::<PoolPtr>::empty(),
    {
        self.pages = Vec::new();
        proof {
            self.handed@ = Seq::empty();
        }
    }
}

} // verus!
