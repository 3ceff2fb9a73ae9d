use vstd::prelude::*;
use crate::memory::pmm::{PhysicalMemoryManager, page_align, page_of};
use crate::memory::vmm::{PageTables, map_page_result};

pub mod bits;
pub mod boot_frames;
pub mod entry;
pub mod frame_map;
pub mod heap;
pub mod pmm;
pub mod vmm;

verus! {

/// Size in bytes of a page frame.
pub const PAGE_SIZE: u64 = 4096;

/// Page table flags used when a physical page is mapped for the kernel to
/// reach it: present and writable.
pub const KERNEL_RW: u64 = 3;

/// A pointer to physical memory, reached through the higher-half direct map.
pub struct PhysicalPointer {
    paddr: usize,
}

impl PhysicalPointer {
    /// The physical address pointed at.
    pub closed spec fn addr(&self) -> usize {
        self.paddr
    }

    /// A pointer to physical address `addr`. The page holding it is mapped at
    /// its higher-half address (the page's address plus the offset).
    pub fn new(addr: usize, tables: &mut PageTables, pmm: &mut PhysicalMemoryManager) -> (r: Self)
        requires
            old(tables).wf(),
            old(pmm).wf(),
            page_of(addr as u64) + old(pmm).hhdm() <= u64::MAX,
        ensures
            r.addr() == addr,
            final(tables).wf(),
            final(pmm).wf(),
            final(pmm).hhdm() == old(pmm).hhdm(),
            (final(tables)@, final(pmm).pages()) == map_page_result(
                old(tables)@,
                old(pmm).pages(),
                page_of(addr as u64),
                (page_of(addr as u64) + old(pmm).hhdm()) as u64,
                KERNEL_RW,
            ),
    {
        let aligned_phys = page_align(addr as u64);
        let aligned_virt = aligned_phys + pmm.get_hhdm_offset();
        tables.map_page(pmm, aligned_phys, aligned_virt, KERNEL_RW);
        Self { paddr: addr }
    }

    /// The physical address pointed at.
    pub fn address(&self) -> (r: usize)
        ensures
            r == self.addr(),
    {
        self.paddr
    }
}

} // verus!
