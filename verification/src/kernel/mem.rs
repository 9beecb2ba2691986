//! The bare kernel's allocator: a bump pointer over the heap that starts
//! again from the bottom when it runs past the end.
use vstd::prelude::*;

verus! {

/// The size of the kernel heap.
pub const KERNEL_MEMORY_MAXIMUM: u32 = 0x7D_0000;

/// The kernel heap: where it starts (the linker's end of the program) and
/// the next free offset.
pub struct KernelHeap {
    pub heap_end: u32,
    pub offset: u32,
}

impl KernelHeap {
    /// A heap starting at `heap_end`, with the first `0xD000` bytes
    /// reserved.
    pub fn new(heap_end: u32) -> (r: Self)
        ensures
            r.heap_end == heap_end,
            r.offset == 0xD000,
    {
        KernelHeap { heap_end: heap_end, offset: 0xD000 }
    }

    /// Takes `bytes`: from the offset when they fit below the end, else
    /// from the bottom of the heap.
    pub fn kalloc(&mut self, bytes: u32) -> (r: u32)
        requires
            old(self).offset <= KERNEL_MEMORY_MAXIMUM,
            bytes <= KERNEL_MEMORY_MAXIMUM,
            old(self).heap_end + KERNEL_MEMORY_MAXIMUM <= u32::MAX,
        ensures
            final(self).heap_end == old(self).heap_end,
            old(self).offset + bytes > KERNEL_MEMORY_MAXIMUM ==> r == old(self).heap_end && final(self).offset == bytes,
            old(self).offset + bytes <= KERNEL_MEMORY_MAXIMUM ==> r == old(self).heap_end + old(self).offset
                && final(self).offset == old(self).offset + bytes,
            final(self).offset <= KERNEL_MEMORY_MAXIMUM,
    {
        if self.offset + bytes > KERNEL_MEMORY_MAXIMUM {
            self.offset = 0;
        }
        let ptr = self.heap_end + self.offset;
        self.offset = self.offset + bytes;
        ptr
    }
}

} // verus!
