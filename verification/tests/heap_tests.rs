use catmeow_os::memory::heap::{init_heap, Allocator, Node, HEAP_SIZE, HEAP_START, NODE_SIZE};
use catmeow_os::memory::pmm::{MemoryMapEntry, PhysicalMemoryManager, ENTRY_USABLE};
use catmeow_os::memory::vmm::PageTables;

fn starts_sizes(a: &Allocator) -> Vec<(usize, usize)> {
    a.regions().iter().map(|n| (n.start, n.size)).collect()
}

#[test]
fn align_up_rounds_to_multiple() {
    assert_eq!(Allocator::align_up(0x1001, 0x1000), 0x2000);
    assert_eq!(Allocator::align_up(0x1000, 0x1000), 0x1000);
    assert_eq!(Allocator::align_up(13, 8), 16);
    assert_eq!(Allocator::align_up(0, 16), 0);
}

#[test]
fn size_align_pads_and_raises() {
    assert_eq!(Allocator::size_align(24, 8), (24, 8));
    assert_eq!(Allocator::size_align(1, 1), (16, 8));
    assert_eq!(Allocator::size_align(17, 8), (24, 8));
    assert_eq!(Allocator::size_align(0, 4096), (16, 4096));
    assert_eq!(Allocator::size_align(100, 64), (128, 64));
}

#[test]
fn node_bounds() {
    let n = Node::new(0x1000, 0x20);
    assert_eq!(n.get_start(), 0x1000);
    assert_eq!(n.get_end(), 0x1020);
}

#[test]
fn allocation_splits_region() {
    let mut a = Allocator::new();
    a.add(0x1000, 0x100);
    let p = a.allocate(24, 8);
    assert_eq!(p, 0x1000);
    assert_eq!(starts_sizes(&a), vec![(0x1018, 0xE8)]);
}

#[test]
fn allocation_refuses_too_small_remainder() {
    let mut a = Allocator::new();
    a.add(0x2000, 40);
    assert_eq!(a.allocate(32, 8), 0);
    assert_eq!(starts_sizes(&a), vec![(0x2000, 40)]);
}

#[test]
fn allocation_exact_fit_empties_list() {
    let mut a = Allocator::new();
    a.add(0x2000, 32);
    assert_eq!(a.allocate(32, 8), 0x2000);
    assert!(a.regions().is_empty());
}

#[test]
fn allocation_drops_alignment_padding() {
    let mut a = Allocator::new();
    a.add(0x1008, 0x300);
    // 16 bytes aligned to 256 take 256 bytes, starting at the first multiple of 256.
    assert_eq!(a.allocate(16, 0x100), 0x1100);
    assert_eq!(starts_sizes(&a), vec![(0x1200, 0x108)]);
}

#[test]
fn first_fit_in_list_order() {
    let mut a = Allocator::new();
    a.add(0x10000, 0x1000);
    a.add(0x20000, 0x10);
    // The front region (0x20000) is too small for 64 bytes; the next one is used.
    assert_eq!(a.allocate(64, 8), 0x10000);
    assert_eq!(starts_sizes(&a), vec![(0x10040, 0x1000 - 64), (0x20000, 0x10)]);
}

#[test]
fn allocated_block_is_disjoint_from_free_list() {
    let mut a = Allocator::new();
    a.add(0x40000, 0x100);
    a.add(0x30000, 0x100);
    let p = a.allocate(48, 16);
    for (s, n) in starts_sizes(&a) {
        assert!(p + 48 <= s || s + n <= p);
    }
}

#[test]
fn empty_list_allocates_nothing() {
    let mut a = Allocator::new();
    assert_eq!(a.allocate(8, 8), 0);
    assert!(a.regions().is_empty());
}

#[test]
fn deallocate_puts_block_in_front() {
    let mut a = Allocator::new();
    a.add(0x1000, 0x100);
    a.deallocate(0x5000, 10, 1);
    assert_eq!(starts_sizes(&a), vec![(0x5000, NODE_SIZE), (0x1000, 0x100)]);
    a.remove(0x5000);
    assert_eq!(starts_sizes(&a), vec![(0x5000, NODE_SIZE), (0x1000, 0x100)]);
}

#[test]
fn heap_init_maps_and_frees_whole_heap() {
    let mut pmm = PhysicalMemoryManager::new();
    let entries = [MemoryMapEntry { base: 0x100000, length: 1100 * 4096, entry_type: ENTRY_USABLE }];
    pmm.init_memory(&entries, 0xFFFF_8000_0000_0000 - 0x1_0000_0000);
    let mut tables = PageTables::new();
    let mut a = Allocator::new();
    init_heap(&mut a, &mut tables, &mut pmm);
    assert_eq!(starts_sizes(&a), vec![(HEAP_START as usize, HEAP_SIZE)]);
    // 1024 heap pages, one third-level table, one second-level table and two last-level tables.
    assert_eq!(pmm.free_pages().len(), 1100 - 1028);
    assert_eq!(tables.get_physaddr(HEAP_START), (0x100000 + 1099 * 4096) >> 12);
}

#[test]
fn freed_block_comes_back_for_same_layout() {
    let mut a = Allocator::new();
    a.add(0x2000, 0x40);
    a.add(0x1000, 0x100);
    let p = a.allocate(20, 16);
    assert_eq!(p, 0x1000);
    let before = starts_sizes(&a);
    a.deallocate(p, 20, 16);
    assert_eq!(a.allocate(20, 16), p);
    assert_eq!(starts_sizes(&a), before);
}

#[test]
fn free_regions_stay_aligned_and_large() {
    let mut a = Allocator::new();
    a.add(0x1000, 0x100);
    a.allocate(1, 1);
    a.allocate(40, 8);
    for (start, size) in starts_sizes(&a) {
        assert_eq!(start % 8, 0);
        assert!(size >= NODE_SIZE);
    }
}
