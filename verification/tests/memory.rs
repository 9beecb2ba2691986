use hexagon::kernel::mem::KernelHeap;
use hexagon::mem::{Heap, Mempage};

#[test]
fn heap_pages() {
    let mut heap = Heap::new();
    let first = heap.kalloc(10).unwrap();
    assert_eq!(first, 0x2020_0000 + 0xFFC + 16);
    assert_eq!(heap.offset, 0xFFC + 28);
    assert_eq!(heap.pages.len(), 1);
    assert_eq!(heap.pages[0], Mempage { size: 28, used: true, addr: 0x2020_0FFC, ptr: first });
    let second = heap.add_page(4).unwrap();
    assert_eq!(second, 0x2020_0FFC + 28 + 16);
    assert_eq!(heap.pages[0].ptr, second);
    heap.free(first);
    assert!(!heap.pages[1].used);
    assert!(heap.pages[0].used);
}

#[test]
fn heap_reclaims_after_running_out() {
    let mut heap = Heap::new();
    let first = heap.kalloc(100).unwrap();
    heap.free(first);
    assert_eq!(heap.allocate(0x7_0000), Some(0x2020_0FFC + 116));
    let reused = heap.kalloc(0x7_0000);
    assert!(heap.overflow);
    assert_eq!(reused, None);
    // The bump pointer still has room for a small page, which is handed
    // out but no longer recorded.
    let again = heap.kalloc(50);
    assert_eq!(again, Some(0x2020_0FFC + 116 + 0x7_0000 + 16));
    assert_eq!(heap.pages.len(), 1);
    assert_eq!(heap.reclaim(1), Some(0x2020_0FFC));
    assert!(heap.pages[0].used);
    assert_eq!(heap.reclaim(1), None);
    assert_eq!(Mempage::new(8, 1, 17), Mempage { size: 8, used: true, addr: 1, ptr: 17 });
}

#[test]
fn kernel_heap_wraps() {
    let mut heap = KernelHeap::new(0x1000);
    assert_eq!(heap.kalloc(16), 0x1000 + 0xD000);
    assert_eq!(heap.offset, 0xD010);
    heap.offset = 0x7C_FFF0;
    assert_eq!(heap.kalloc(0x20), 0x1000);
    assert_eq!(heap.offset, 0x20);
}
