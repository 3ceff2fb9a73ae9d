//! Physical memory manager: a free list of 4 KiB page frames built from the
//! boot loader's memory map.
//!
//! The free list is kept as a sequence of physical page addresses whose last
//! element is the head of the list (the page `allocate` hands out next).
use vstd::prelude::*;
use crate::memory::PAGE_SIZE;

verus! {

/// Memory map entry kinds, numbered as the boot loader numbers them.
pub const ENTRY_USABLE: u64 = 0;
pub const ENTRY_RESERVED: u64 = 1;
pub const ENTRY_ACPI_RECLAIMABLE: u64 = 2;
pub const ENTRY_ACPI_NVS: u64 = 3;
pub const ENTRY_BAD_MEMORY: u64 = 4;
pub const ENTRY_BOOTLOADER_RECLAIMABLE: u64 = 5;
pub const ENTRY_EXECUTABLE_AND_MODULES: u64 = 6;
pub const ENTRY_FRAMEBUFFER: u64 = 7;

/// Bits of an address below the page boundary.
pub const PAGE_MASK: u64 = 4095;

/// One entry of the boot loader's memory map: `length` bytes of physical
/// memory starting at `base`, of kind `entry_type`.
#[derive(Debug, Clone, Copy)]
pub struct MemoryMapEntry {
    pub base: u64,
    pub length: u64,
    pub entry_type: u64,
}

/// Number of pages the free list takes from an entry of `length` bytes:
/// one for every 4 KiB step that starts inside the entry.
pub open spec fn page_count(length: int) -> int {
    (length + 4095) / 4096
}

/// The pages an entry contributes, lowest first.
pub open spec fn entry_pages(e: MemoryMapEntry) -> Seq<u64> {
    Seq::new(page_count(e.length as int) as nat, |k: int| (e.base + k * 4096) as u64)
}

/// The pages of all usable entries, in the order they are pushed on the free list.
pub open spec fn usable_pages(entries: Seq<MemoryMapEntry>) -> Seq<u64>
    decreases entries.len(),
{
    if entries.len() == 0 {
        Seq::empty()
    } else {
        let last = entries.last();
        usable_pages(entries.drop_last()) + if last.entry_type == ENTRY_USABLE {
            entry_pages(last)
        } else {
            Seq::empty()
        }
    }
}

/// `true` when walking a usable entry page by page never overflows: neither
/// the page counter nor any page address seen through the higher-half offset.
pub open spec fn entry_walk_fits(e: MemoryMapEntry, hhdm: u64) -> bool {
    e.entry_type == ENTRY_USABLE ==> {
        &&& page_count(e.length as int) * 4096 <= u64::MAX
        &&& page_count(e.length as int) > 0 ==> e.base + (page_count(e.length as int) - 1) * 4096 + hhdm
            <= u64::MAX
    }
}

/// `true` when every page of the list can be seen through the higher-half offset.
pub open spec fn pages_mappable(pages: Seq<u64>, hhdm: u64) -> bool {
    forall|i: int| 0 <= i < pages.len() ==> #[trigger] pages[i] + hhdm <= u64::MAX
}

/// What `allocate` returns and leaves: the head of the list, or 0 and the
/// same list when it is empty.
pub open spec fn allocate_result(pages: Seq<u64>) -> (u64, Seq<u64>) {
    if pages.len() == 0 {
        (0, pages)
    } else {
        (pages.last(), pages.drop_last())
    }
}

/// The list after `free(addr)`: `addr` becomes the head.
pub open spec fn free_result(pages: Seq<u64>, addr: u64) -> Seq<u64> {
    pages.push(addr)
}

/// The start of the page that holds `x`.
pub open spec fn page_of(x: u64) -> u64 {
    (x - x % 4096) as u64
}

/// Rounds `x` down to the start of its page.
pub fn page_align(x: u64) -> (r: u64)
    ensures
        r == page_of(x),
{
    let r = x & !PAGE_MASK;
    assert(x & !4095u64 == x - x % 4096) by (bit_vector);
    r
}

/// `true` when `x` is the start of a page.
pub fn is_page_aligned(x: u64) -> (r: bool)
    ensures
        r == (x % 4096 == 0),
{
    x == page_align(x)
}

/// The physical memory manager: the higher-half offset through which the
/// kernel sees physical memory, and the free list of page frames.
pub struct PhysicalMemoryManager {
    hhdm_offset: u64,
    free: Vec<u64>,
}

impl PhysicalMemoryManager {
    /// The free list, head last.
    pub closed spec fn pages(&self) -> Seq<u64> {
        self.free@
    }

    /// The higher-half offset.
    pub closed spec fn hhdm(&self) -> u64 {
        self.hhdm_offset
    }

    /// The manager's invariant: every free page can be seen through the offset.
    pub open spec fn wf(&self) -> bool {
        pages_mappable(self.pages(), self.hhdm())
    }

    /// A manager with no free pages and a zero offset.
    pub fn new() -> (r: Self)
        ensures
            r.pages() == Seq::<u64>::empty(),
            r.hhdm() == 0,
            r.wf(),
    {
        Self { hhdm_offset: 0, free: Vec::new() }
    }

    /// The higher-half offset.
    pub fn get_hhdm_offset(&self) -> (r: u64)
        ensures
            r == self.hhdm(),
    {
        self.hhdm_offset
    }

    /// The free pages, head last.
    pub fn free_pages(&self) -> (r: Vec<u64>)
        ensures
            r@ == self.pages(),
    {
        self.free.clone()
    }

    /// Records the higher-half offset and rebuilds the free list from the
    /// memory map: every 4 KiB step of every usable entry, in map order, each
    /// pushed on the list in turn. Entries of other kinds are skipped.
    pub fn init_memory(&mut self, entries: &[MemoryMapEntry], hhdm_offset: u64)
        requires
            forall|i: int| 0 <= i < entries@.len() ==> entry_walk_fits(#[trigger] entries@[i], hhdm_offset),
        ensures
            final(self).hhdm() == hhdm_offset,
            final(self).pages() == usable_pages(entries@),
            final(self).wf(),
    {
        self.hhdm_offset = hhdm_offset;
        let mut current: Vec<u64> = Vec::new();
        let mut i: usize = 0;
        while i < entries.len()
            invariant
                0 <= i <= entries@.len(),
                forall|j: int| 0 <= j < entries@.len() ==> entry_walk_fits(#[trigger] entries@[j], hhdm_offset),
                current@ == usable_pages(entries@.subrange(0, i as int)),
                pages_mappable(current@, hhdm_offset),
            decreases entries@.len() - i,
        {
            let entry = entries[i];
            proof {
                assert(entries@.subrange(0, i + 1).drop_last() =~= entries@.subrange(0, i as int));
                assert(entries@.subrange(0, i + 1).last() == entry);
                assert(entry_walk_fits(entries@[i as int], hhdm_offset));
            }
            if entry.entry_type == ENTRY_USABLE {
                let ghost before = current@;
                let mut curr_size: u64 = 0;
                let ghost mut k: int = 0;
                while curr_size < entry.length
                    invariant
                        entry_walk_fits(entry, hhdm_offset),
                        entry.entry_type == ENTRY_USABLE,
                        0 <= k <= page_count(entry.length as int),
                        curr_size == k * 4096,
                        k < page_count(entry.length as int) <==> curr_size < entry.length,
                        current@ == before + entry_pages(entry).subrange(0, k),
                        pages_mappable(current@, hhdm_offset),
                    decreases page_count(entry.length as int) - k,
                {
                    proof {
                        assert(k + 1 <= page_count(entry.length as int));
                        assert(entry.base + k * 4096 + hhdm_offset <= u64::MAX) by (nonlinear_arith)
                            requires
                                k + 1 <= page_count(entry.length as int),
                                entry.base + (page_count(entry.length as int) - 1) * 4096 + hhdm_offset <= u64::MAX,
                        ;
                        assert((k + 1) * 4096 <= u64::MAX) by (nonlinear_arith)
                            requires
                                k + 1 <= page_count(entry.length as int),
                                page_count(entry.length as int) * 4096 <= u64::MAX,
                        ;
                    }
                    let page = entry.base + curr_size;
                    current.push(page);
                    curr_size = curr_size + PAGE_SIZE;
                    proof {
                        assert(entry_pages(entry)[k] == page);
                        assert(entry_pages(entry).subrange(0, k + 1) =~= entry_pages(entry).subrange(0, k).push(page));
                        k = k + 1;
                        assert(k < page_count(entry.length as int) <==> curr_size < entry.length) by (nonlinear_arith)
                            requires
                                curr_size == k * 4096,
                                page_count(entry.length as int) == (entry.length + 4095) / 4096,
                                k >= 1,
                        ;
                    }
                }
                proof {
                    assert(entry_pages(entry).subrange(0, k) =~= entry_pages(entry));
                }
            }
            i = i + 1;
        }
        proof {
            assert(entries@.subrange(0, entries@.len() as int) =~= entries@);
        }
        self.free = current;
    }

    /// Takes the head page off the free list and returns it; returns 0 and
    /// changes nothing when the list is empty.
    pub fn allocate(&mut self) -> (r: u64)
        requires
            old(self).wf(),
        ensures
            (r, final(self).pages()) == allocate_result(old(self).pages()),
            final(self).hhdm() == old(self).hhdm(),
            final(self).wf(),
    {
        match self.free.pop() {
            Some(page) => page,
            None => 0,
        }
    }

    /// Puts the page at `addr` at the head of the free list.
    pub fn free(&mut self, addr: u64)
        requires
            old(self).wf(),
            addr + old(self).hhdm() <= u64::MAX,
        ensures
            final(self).pages() == free_result(old(self).pages(), addr),
            final(self).hhdm() == old(self).hhdm(),
            final(self).wf(),
    {
        self.free.push(addr);
    }

    /// Looks for the page holding `addr` among the free pages after the head,
    /// and returns where the kernel sees it (its address plus the offset).
    /// The head itself is not looked at.
    pub fn find(&self, addr: u64) -> (r: Option<u64>)
        requires
            self.wf(),
            self.pages().len() > 0,
        ensures
            r is Some <==> exists|j: int| 0 <= j < self.pages().len() - 1 && self.pages()[j] == page_of(addr),
            r matches Some(v) ==> v == page_of(addr) + self.hhdm(),
    {
        let target = page_align(addr);
        let len = self.free.len();
        let mut j: usize = len - 1;
        while j > 0
            invariant
                self.wf(),
                len == self.pages().len(),
                0 <= j <= len - 1,
                target == page_of(addr),
                forall|m: int| j <= m < len - 1 ==> self.pages()[m] != target,
            decreases j,
        {
            j = j - 1;
            let page = self.free[j];
            proof {
                assert(page + self.hhdm() <= u64::MAX);
            }
            if page == target {
                return Some(page + self.hhdm_offset);
            }
        }
        None
    }
}

/// Freeing a page and then allocating gives that page back and leaves the
/// free list as it was.
pub proof fn law_free_then_allocate(pages: Seq<u64>, addr: u64)
    ensures
        allocate_result(free_result(pages, addr)) == (addr, pages),
{
    assert(free_result(pages, addr).drop_last() =~= pages);
}

/// Allocating from a non-empty list and freeing the page again restores the list.
pub proof fn law_allocate_then_free(pages: Seq<u64>)
    requires
        pages.len() > 0,
    ensures
        free_result(allocate_result(pages).1, allocate_result(pages).0) == pages,
{
    assert(pages.drop_last().push(pages.last()) =~= pages);
}

} // verus!
