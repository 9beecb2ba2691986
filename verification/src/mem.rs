//! The kernel heap, a "cyclical mempage" allocator over the slow RAM:
//! memory is handed out from a bump pointer, each allocation behind a page
//! header; once the region is used up, freed pages are handed out again.
//! Addresses are plain numbers here; reading and writing the memory they
//! name is the caller's.
use vstd::prelude::*;
use crate::phys::addrs::OCRAM2;

verus! {

/// The end of the heap region, as an offset into the slow RAM.
pub const MEMORY_MAXIMUM: u32 = 0x7_FFFF;
/// Where allocation starts: a 4 KiB reserve, word aligned.
pub const MEMORY_BEGIN_OFFSET: u32 = 0x0_0FFC;
/// The size of a page header on the device.
pub const PAGE_HEADER_BYTES: u32 = 16;

/// A page of memory: its size, whether it is in use, where its header is
/// and where the memory handed out starts.
#[derive(Copy, Clone, PartialEq, Eq, Structural, Debug)]
pub struct Mempage {
    pub size: u32,
    pub used: bool,
    pub addr: u32,
    pub ptr: u32,
}

impl Mempage {
    /// A page in use, of `size` bytes at `ptr`, whose header is at `addr`.
    pub fn new(size: u32, addr: u32, ptr: u32) -> (r: Self)
        ensures
            r == (Mempage { size: size, used: true, addr: addr, ptr: ptr }),
    {
        Mempage { size: size, used: true, addr: addr, ptr: ptr }
    }
}

/// The heap: the next free offset, whether the region has run out, and
/// the pages handed out, newest first.
pub struct Heap {
    pub offset: u32,
    pub overflow: bool,
    pub pages: Vec<Mempage>,
}

/// The first page of `pages` from `i` on that is free and at least
/// `bytes` long.
pub open spec fn first_fit(pages: Seq<Mempage>, bytes: u32, i: int) -> Option<int>
    decreases pages.len() - i,
{
    if i >= pages.len() {
        None
    } else if pages[i].size >= bytes && !pages[i].used {
        Some(i)
    } else {
        first_fit(pages, bytes, i + 1)
    }
}

/// `bytes` rounded up to a whole number of words.
pub open spec fn word_aligned(bytes: nat) -> nat {
    if bytes % 4 == 0 { bytes } else { bytes + (4 - bytes % 4) as nat }
}

impl Heap {
    /// The heap's consistency condition: the bump offset stays inside the
    /// region, and every page lies below it, with its memory right after
    /// its header.
    pub open spec fn well_formed(&self) -> bool {
        &&& MEMORY_BEGIN_OFFSET <= self.offset < MEMORY_MAXIMUM
        &&& forall|i: int|
            0 <= i < self.pages@.len() ==> {
                let p = #[trigger] self.pages@[i];
                &&& OCRAM2 + MEMORY_BEGIN_OFFSET <= p.addr
                &&& p.addr + p.size <= OCRAM2 + self.offset
                &&& p.ptr == p.addr + PAGE_HEADER_BYTES
                &&& p.size >= PAGE_HEADER_BYTES
            }
    }

    /// An empty heap.
    pub fn new() -> (r: Self)
        ensures
            r.well_formed(),
            r.offset == MEMORY_BEGIN_OFFSET,
            !r.overflow,
            r.pages@.len() == 0,
    {
        Heap { offset: MEMORY_BEGIN_OFFSET, overflow: false, pages: Vec::new() }
    }

    /// Hands out the header address of the first free page of at least
    /// `bytes`, marking it used; `None` when there is none, where the
    /// device stops in its error loop.
    pub fn reclaim(&mut self, bytes: u32) -> (r: Option<u32>)
        requires
            old(self).well_formed(),
        ensures
            final(self).well_formed(),
            final(self).offset == old(self).offset,
            final(self).overflow == old(self).overflow,
            r matches Some(a) ==> OCRAM2 + MEMORY_BEGIN_OFFSET <= a < OCRAM2 + MEMORY_MAXIMUM,
            match first_fit(old(self).pages@, bytes, 0) {
                None => r is None && final(self).pages@ == old(self).pages@,
                Some(i) => r == Some(old(self).pages@[i].addr) && final(self).pages@ == old(
                    self,
                ).pages@.update(i, Mempage { used: true, ..old(self).pages@[i] }),
            },
    {
        let mut idx: usize = 0;
        while idx < self.pages.len()
            invariant
                old(self).well_formed(),
                self.pages@ == old(self).pages@,
                self.offset == old(self).offset,
                self.overflow == old(self).overflow,
                idx <= self.pages@.len(),
                first_fit(old(self).pages@, bytes, 0) == first_fit(old(self).pages@, bytes, idx as int),
            decreases self.pages@.len() - idx,
        {
            let page = self.pages[idx];
            if page.size >= bytes && !page.used {
                let mut next = page;
                next.used = true;
                self.pages.set(idx, next);
                assert(self.pages@ =~= old(self).pages@.update(idx as int, next));
                assert forall|i: int| 0 <= i < self.pages@.len() implies {
                    let p = #[trigger] self.pages@[i];
                    &&& OCRAM2 + MEMORY_BEGIN_OFFSET <= p.addr
                    &&& p.addr + p.size <= OCRAM2 + self.offset
                    &&& p.ptr == p.addr + PAGE_HEADER_BYTES
                    &&& p.size >= PAGE_HEADER_BYTES
                } by {
                    assert(old(self).pages@[i].addr == self.pages@[i].addr);
                    assert(old(self).pages@[i].size == self.pages@[i].size);
                }
                assert(old(self).pages@[idx as int] == page);
                return Some(page.addr);
            }
            idx = idx + 1;
        }
        None
    }

    /// Frees the page whose memory starts at `ptr`: its header is right
    /// before it. Other pages are left alone.
    pub fn free(&mut self, ptr: u32)
        requires
            old(self).well_formed(),
        ensures
            final(self).well_formed(),
            final(self).offset == old(self).offset,
            final(self).overflow == old(self).overflow,
            final(self).pages@.len() == old(self).pages@.len(),
            forall|i: int|
                0 <= i < old(self).pages@.len() ==> #[trigger] final(self).pages@[i] == if old(
                    self,
                ).pages@[i].addr + PAGE_HEADER_BYTES == ptr {
                    Mempage { used: false, ..old(self).pages@[i] }
                } else {
                    old(self).pages@[i]
                },
    {
        let mut idx: usize = 0;
        while idx < self.pages.len()
            invariant
                old(self).well_formed(),
                self.offset == old(self).offset,
                self.overflow == old(self).overflow,
                self.pages@.len() == old(self).pages@.len(),
                idx <= self.pages@.len(),
                forall|i: int|
                    0 <= i < old(self).pages@.len() ==> #[trigger] self.pages@[i] == if i < idx
                        && old(self).pages@[i].addr + PAGE_HEADER_BYTES == ptr {
                        Mempage { used: false, ..old(self).pages@[i] }
                    } else {
                        old(self).pages@[i]
                    },
            decreases self.pages@.len() - idx,
        {
            let page = self.pages[idx];
            if ptr >= PAGE_HEADER_BYTES && page.addr == ptr - PAGE_HEADER_BYTES {
                let mut next = page;
                next.used = false;
                self.pages.set(idx, next);
            }
            idx = idx + 1;
        }
    }

    /// Takes `bytes` from the region: from the bump pointer while it has
    /// room, else (marking the region as run out) by reclaiming a freed
    /// page.
    pub fn allocate(&mut self, bytes: u32) -> (r: Option<u32>)
        requires
            old(self).well_formed(),
            bytes <= u32::MAX - MEMORY_MAXIMUM,
        ensures
            final(self).well_formed(),
            r matches Some(a) ==> OCRAM2 + MEMORY_BEGIN_OFFSET <= a < OCRAM2 + MEMORY_MAXIMUM,
            old(self).offset + bytes < MEMORY_MAXIMUM ==> r == Some((OCRAM2 + old(self).offset) as u32)
                && final(self).offset == old(self).offset + bytes && final(self).overflow
                == old(self).overflow && final(self).pages@ == old(self).pages@,
            old(self).offset + bytes >= MEMORY_MAXIMUM ==> final(self).overflow && final(self).offset
                == old(self).offset && match first_fit(old(self).pages@, bytes, 0) {
                None => r is None && final(self).pages@ == old(self).pages@,
                Some(i) => r == Some(old(self).pages@[i].addr) && final(self).pages@ == old(
                    self,
                ).pages@.update(i, Mempage { used: true, ..old(self).pages@[i] }),
            },
    {
        if self.offset + bytes >= MEMORY_MAXIMUM {
            self.overflow = true;
            return self.reclaim(bytes);
        }
        let ptr = OCRAM2 + self.offset;
        self.offset = self.offset + bytes;
        assert forall|i: int| 0 <= i < self.pages@.len() implies {
            let p = #[trigger] self.pages@[i];
            p.addr + p.size <= OCRAM2 + self.offset
        } by {
            assert(old(self).pages@[i] == self.pages@[i]);
        }
        Some(ptr)
    }

    /// Allocates `bytes` behind a page header and returns the address of
    /// the memory. The page is recorded, newest first, unless the region
    /// has run out, when the memory is handed out unrecorded.
    pub fn add_page(&mut self, bytes: u32) -> (r: Option<u32>)
        requires
            old(self).well_formed(),
            bytes <= u32::MAX - MEMORY_MAXIMUM - 20,
        ensures
            final(self).well_formed(),
            ({
                let total = word_aligned((PAGE_HEADER_BYTES + bytes) as nat);
                &&& old(self).offset + total < MEMORY_MAXIMUM ==> {
                    let addr = (OCRAM2 + old(self).offset) as u32;
                    &&& r == Some((addr + PAGE_HEADER_BYTES) as u32)
                    &&& final(self).offset == old(self).offset + total
                    &&& !old(self).overflow ==> final(self).pages@ == seq![
                        Mempage { size: total as u32, used: true, addr: addr, ptr: (addr + PAGE_HEADER_BYTES) as u32 },
                    ] + old(self).pages@
                    &&& old(self).overflow ==> final(self).pages@ == old(self).pages@
                }
                &&& old(self).offset + total >= MEMORY_MAXIMUM ==> final(self).overflow && match first_fit(
                    old(self).pages@,
                    total as u32,
                    0,
                ) {
                    None => r is None && final(self).pages@ == old(self).pages@,
                    Some(i) => 0 <= i < old(self).pages@.len() && r == Some((old(self).pages@[i].addr + PAGE_HEADER_BYTES) as u32),
                }
            }),
    {
        let mut total_bytes: u32 = PAGE_HEADER_BYTES + bytes;
        while total_bytes % 4 != 0
            invariant
                PAGE_HEADER_BYTES + bytes <= total_bytes <= word_aligned((PAGE_HEADER_BYTES + bytes) as nat),
                word_aligned((PAGE_HEADER_BYTES + bytes) as nat) <= PAGE_HEADER_BYTES + bytes + 3,
                bytes <= u32::MAX - MEMORY_MAXIMUM - 20,
                total_bytes % 4 == 0 ==> total_bytes == word_aligned((PAGE_HEADER_BYTES + bytes) as nat),
                total_bytes % 4 != 0 ==> word_aligned((PAGE_HEADER_BYTES + bytes) as nat) == total_bytes + (4 - total_bytes % 4),
            decreases word_aligned((PAGE_HEADER_BYTES + bytes) as nat) - total_bytes,
        {
            total_bytes = total_bytes + 1;
        }
        proof {
            lemma_first_fit_in_range(self.pages@, total_bytes, 0);
        }
        let next_page = match self.allocate(total_bytes) {
            None => {
                return None;
            },
            Some(addr) => addr,
        };
        let item_ptr = next_page + PAGE_HEADER_BYTES;
        if self.overflow {
            return Some(item_ptr);
        }
        let page = Mempage::new(total_bytes, next_page, item_ptr);
        self.pages.insert(0, page);
        assert forall|i: int| 0 <= i < self.pages@.len() implies {
            let p = #[trigger] self.pages@[i];
            &&& OCRAM2 + MEMORY_BEGIN_OFFSET <= p.addr
            &&& p.addr + p.size <= OCRAM2 + self.offset
            &&& p.ptr == p.addr + PAGE_HEADER_BYTES
            &&& p.size >= PAGE_HEADER_BYTES
        } by {
            if i > 0 {
                assert(self.pages@[i] == old(self).pages@[i - 1]);
            }
        }
        assert(self.pages@ =~= seq![page] + old(self).pages@);
        Some(item_ptr)
    }

    /// Allocates `bytes` for a value and returns where it goes.
    pub fn kalloc(&mut self, bytes: u32) -> (r: Option<u32>)
        requires
            old(self).well_formed(),
            bytes <= u32::MAX - MEMORY_MAXIMUM - 20,
        ensures
            final(self).well_formed(),
            ({
                let total = word_aligned((PAGE_HEADER_BYTES + bytes) as nat);
                &&& old(self).offset + total < MEMORY_MAXIMUM ==> {
                    let addr = (OCRAM2 + old(self).offset) as u32;
                    &&& r == Some((addr + PAGE_HEADER_BYTES) as u32)
                    &&& final(self).offset == old(self).offset + total
                    &&& !old(self).overflow ==> final(self).pages@ == seq![
                        Mempage { size: total as u32, used: true, addr: addr, ptr: (addr + PAGE_HEADER_BYTES) as u32 },
                    ] + old(self).pages@
                    &&& old(self).overflow ==> final(self).pages@ == old(self).pages@
                }
                &&& old(self).offset + total >= MEMORY_MAXIMUM ==> final(self).overflow && match first_fit(
                    old(self).pages@,
                    total as u32,
                    0,
                ) {
                    None => r is None && final(self).pages@ == old(self).pages@,
                    Some(i) => 0 <= i < old(self).pages@.len() && r == Some((old(self).pages@[i].addr + PAGE_HEADER_BYTES) as u32),
                }
            }),
    {
        self.add_page(bytes)
    }
}

/// A page found by `first_fit` is one of the pages.
proof fn lemma_first_fit_in_range(pages: Seq<Mempage>, bytes: u32, i: int)
    requires
        0 <= i,
    ensures
        first_fit(pages, bytes, i) matches Some(j) ==> i <= j < pages.len(),
    decreases pages.len() - i,
{
    if i < pages.len() {
        lemma_first_fit_in_range(pages, bytes, i + 1);
    }
}

/// A page recorded by `add_page` never overlaps the pages recorded before
/// it: they all end at or before the bump offset it starts at.
pub proof fn lemma_new_page_is_fresh(heap: Heap, page: Mempage)
    requires
        heap.well_formed(),
        page.addr == OCRAM2 + heap.offset,
    ensures
        forall|i: int|
            0 <= i < heap.pages@.len() ==> #[trigger] heap.pages@[i].addr + heap.pages@[i].size
                <= page.addr,
{
}

} // verus!
