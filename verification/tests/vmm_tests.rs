use catmeow_os::memory::entry::{PageTableEntry, VirtAddr, FRAME_MASK};
use catmeow_os::memory::pmm::{MemoryMapEntry, PhysicalMemoryManager, ENTRY_USABLE};
use catmeow_os::memory::vmm::{Page, PageTables, VirtualAllocator};
use catmeow_os::memory::{PhysicalPointer, KERNEL_RW};

fn pmm_with(pages: u64) -> PhysicalMemoryManager {
    let mut pmm = PhysicalMemoryManager::new();
    pmm.init_memory(&[MemoryMapEntry { base: 0x100000, length: pages * 4096, entry_type: ENTRY_USABLE }], 0x1_0000_0000);
    pmm
}

#[test]
fn entry_fields_read_back() {
    let mut e = PageTableEntry::new();
    assert!(!e.present());
    e.set_present(true);
    e.set_writable(true);
    e.set_physical_address(0x12345);
    assert!(e.present());
    assert!(e.writable());
    assert_eq!(e.physical_address(), 0x12345);
    assert_eq!(e.into_bits(), 0x12345 << 12 | 3);
    e.set_physical_address(u64::MAX);
    assert_eq!(e.physical_address(), FRAME_MASK);
    e.set_writable(false);
    assert_eq!(e.into_bits() & 2, 0);
    e.set_bits(0);
    assert_eq!(PageTableEntry::from_bits(7).into_bits(), 7);
}

#[test]
fn virtual_address_fields() {
    let v = VirtAddr::from_u64(0xFFFF_8000_0020_3abc);
    assert_eq!(v.pml4_index(), 256);
    assert_eq!(v.pdpt_index(), 0);
    assert_eq!(v.pd_index(), 1);
    assert_eq!(v.pt_index(), 3);
    assert_eq!(v.offset(), 0xabc);
    assert_eq!(v.sign_extension(), 0xFFFF);
}

#[test]
fn map_then_translate() {
    let mut pmm = pmm_with(8);
    let mut t = PageTables::new();
    t.map_page(&mut pmm, 0x5000_0000, 0x4000_1000, 3);
    assert_eq!(t.get_physaddr(0x4000_1000), 0x5000_0000 >> 12);
    // Three tables were taken from the free list.
    assert_eq!(pmm.free_pages().len(), 5);
    // The top-level entry is present and writable.
    let top = PageTableEntry::from_bits(t.pml4_entries()[0]);
    assert!(top.present() && top.writable());
}

#[test]
fn mapping_a_second_page_reuses_tables() {
    let mut pmm = pmm_with(8);
    let mut t = PageTables::new();
    t.map_page(&mut pmm, 0x5000_0000, 0x4000_1000, 3);
    t.map_page(&mut pmm, 0x6000_0000, 0x4000_2000, 0);
    assert_eq!(pmm.free_pages().len(), 5);
    assert_eq!(t.get_physaddr(0x4000_1000), 0x5000_0000 >> 12);
    assert_eq!(t.get_physaddr(0x4000_2000), 0x6000_0000 >> 12);
}

#[test]
fn unmap_then_translate() {
    let mut pmm = pmm_with(8);
    let mut t = PageTables::new();
    t.map_page(&mut pmm, 0x5000_0000, 0x4000_1000, 3);
    t.unmap_page(0x4000_1000);
    assert_eq!(t.get_physaddr(0x4000_1000), 0);
}

#[test]
fn allocate_maps_range() {
    let mut pmm = pmm_with(16);
    let mut t = PageTables::new();
    t.allocate(&mut pmm, 0x4000_0000, 3 * 4096, 3);
    // Three data pages and three tables.
    assert_eq!(pmm.free_pages().len(), 10);
    assert_eq!(t.get_physaddr(0x4000_0000), (0x100000 + 15 * 4096) >> 12);
    assert_eq!(t.get_physaddr(0x4000_1000), (0x100000 + 11 * 4096) >> 12);
    assert_eq!(t.get_physaddr(0x4000_2000), (0x100000 + 10 * 4096) >> 12);
}

#[test]
fn allocate_with_ptr_returns_frame() {
    let mut pmm = pmm_with(8);
    let mut t = PageTables::new();
    let p = t.allocate_with_ptr(&mut pmm, 0x7000_0000, 3);
    assert_eq!(p, 0x100000 + 7 * 4096);
    assert_eq!(t.get_physaddr(0x7000_0000), p >> 12);
}

#[test]
fn free_gives_frame_numbers_back() {
    let mut pmm = pmm_with(8);
    let mut t = PageTables::new();
    t.allocate(&mut pmm, 0x4000_0000, 2 * 4096, 3);
    let before = pmm.free_pages().len();
    t.free(&mut pmm, 0x4000_0000, 2 * 4096);
    let after = pmm.free_pages();
    assert_eq!(after.len(), before + 2);
    assert_eq!(after[before], t.get_physaddr(0x4000_0000));
    assert_eq!(after[before + 1], t.get_physaddr(0x4000_1000));
}

#[test]
fn init_vmm_copies_upper_half() {
    let mut t = PageTables::new();
    let boot: Vec<u64> = (0..512u64).map(|i| i * 0x1000 + 1).collect();
    let cr3 = t.init_vmm(0x20_0000, 0xFFFF_FFFF_8000_0000, &boot, 0xFFFF_FFFF_8010_0000);
    assert_eq!(cr3, 0x30_0000);
    let p = t.pml4_entries();
    assert_eq!(p[0], 3);
    assert_eq!(p[1], 2);
    assert_eq!(p[255], 2);
    assert_eq!(p[256], 256 * 0x1000 + 1);
    assert_eq!(p[511], 511 * 0x1000 + 1);
}

#[test]
fn physical_pointer_maps_its_page() {
    let mut pmm = pmm_with(8);
    let mut t = PageTables::new();
    let ptr = PhysicalPointer::new(0xE_0123, &mut t, &mut pmm);
    assert_eq!(ptr.address(), 0xE_0123);
    assert_eq!(t.get_physaddr(0xE_0000 + 0x1_0000_0000), 0xE0);
    assert_eq!(KERNEL_RW, 3);
}

#[test]
fn virtual_allocator_is_a_stack() {
    let mut v = VirtualAllocator::new();
    assert_eq!(v.pop(), 0);
    v.push(0x1000);
    v.push(0x2000);
    assert_eq!(v.pop(), 0x2000);
    assert_eq!(v.pop(), 0x1000);
    assert_eq!(v.pop(), 0);
    let p = Page::new();
    p.map(1, 2, 3);
    p.unmap();
    p.remap();
    assert_eq!(p.addr, 0);
}

#[test]
fn loaded_tables_are_walked() {
    let mut pmm = pmm_with(4);
    let mut t = PageTables::new();
    let mut upper = vec![0u64; 512];
    upper[256] = 0x200000 | 3;
    t.init_vmm(0x100000, 0xFFFF_FFFF_8000_0000, &upper, 0xFFFF_FFFF_8010_0000);
    assert!(!t.has_table(0x200000));
    let mut pdpt = vec![0u64; 512];
    pdpt[0] = 0x300000 | 3;
    t.load_table(0x200000, pdpt);
    let mut pd = vec![0u64; 512];
    pd[0] = 0x400000 | 3;
    t.load_table(0x300000, pd);
    let mut pt = vec![0u64; 512];
    pt[5] = 0x777000 | 3;
    t.load_table(0x400000, pt);
    assert!(t.has_table(0x300000));
    let v = 0xFFFF_8000_0000_5000;
    assert_eq!(t.get_physaddr(v), 0x777);
    let free_before = pmm.free_pages();
    t.map_page(&mut pmm, 0x888000, v + 0x1000, KERNEL_RW);
    assert_eq!(pmm.free_pages(), free_before);
    assert_eq!(t.get_physaddr(v + 0x1000), 0x888);
    assert_eq!(t.read_entry(0x400000, 6), 0x888000 | 3);
}
