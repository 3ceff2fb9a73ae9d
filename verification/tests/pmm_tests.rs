use catmeow_os::memory::pmm::{
    is_page_aligned, page_align, MemoryMapEntry, PhysicalMemoryManager, ENTRY_RESERVED, ENTRY_USABLE,
};

const HHDM: u64 = 0xFFFF_8000_0000_0000;

fn sample() -> PhysicalMemoryManager {
    let entries = [
        MemoryMapEntry { base: 0x1000, length: 0x3000, entry_type: ENTRY_USABLE },
        MemoryMapEntry { base: 0x10000, length: 0x1000, entry_type: ENTRY_RESERVED },
        MemoryMapEntry { base: 0x20000, length: 0x1800, entry_type: ENTRY_USABLE },
    ];
    let mut pmm = PhysicalMemoryManager::new();
    pmm.init_memory(&entries, HHDM);
    pmm
}

#[test]
fn page_alignment() {
    assert_eq!(page_align(0x1234), 0x1000);
    assert_eq!(page_align(0x1000), 0x1000);
    assert!(is_page_aligned(0x2000));
    assert!(!is_page_aligned(0x2001));
}

#[test]
fn init_builds_free_list_from_usable_entries() {
    let pmm = sample();
    assert_eq!(pmm.get_hhdm_offset(), HHDM);
    assert_eq!(pmm.free_pages(), vec![0x1000, 0x2000, 0x3000, 0x20000, 0x21000]);
}

#[test]
fn allocate_takes_head_until_empty() {
    let mut pmm = sample();
    assert_eq!(pmm.allocate(), 0x21000);
    assert_eq!(pmm.allocate(), 0x20000);
    assert_eq!(pmm.allocate(), 0x3000);
    assert_eq!(pmm.allocate(), 0x2000);
    assert_eq!(pmm.allocate(), 0x1000);
    assert_eq!(pmm.allocate(), 0);
    assert!(pmm.free_pages().is_empty());
}

#[test]
fn free_then_allocate_gives_page_back() {
    let mut pmm = sample();
    let before = pmm.free_pages();
    pmm.free(0x9000);
    assert_eq!(pmm.allocate(), 0x9000);
    assert_eq!(pmm.free_pages(), before);
}

#[test]
fn allocate_then_free_restores_list() {
    let mut pmm = sample();
    let before = pmm.free_pages();
    let p = pmm.allocate();
    pmm.free(p);
    assert_eq!(pmm.free_pages(), before);
}

#[test]
fn find_skips_head() {
    let pmm = sample();
    assert_eq!(pmm.find(0x2abc), Some(0x2000 + HHDM));
    assert_eq!(pmm.find(0x20010), Some(0x20000 + HHDM));
    // The head of the list (0x21000) is not looked at.
    assert_eq!(pmm.find(0x21000), None);
    assert_eq!(pmm.find(0x50000), None);
}

#[test]
fn init_replaces_previous_list() {
    let mut pmm = sample();
    pmm.init_memory(&[MemoryMapEntry { base: 0x8000, length: 1, entry_type: ENTRY_USABLE }], 0);
    assert_eq!(pmm.free_pages(), vec![0x8000]);
    assert_eq!(pmm.get_hhdm_offset(), 0);
}

#[test]
fn offset_is_what_init_recorded() {
    let mut pmm = PhysicalMemoryManager::new();
    assert_eq!(pmm.get_hhdm_offset(), 0);
    pmm.init_memory(&[MemoryMapEntry { base: 0x1000, length: 0x2000, entry_type: ENTRY_USABLE }], 0xFFFF_8000_0000_0000);
    assert_eq!(pmm.get_hhdm_offset(), 0xFFFF_8000_0000_0000);
    let page = pmm.allocate();
    pmm.free(page);
    assert_eq!(pmm.get_hhdm_offset(), 0xFFFF_8000_0000_0000);
}
