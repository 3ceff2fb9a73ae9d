//! Virtual memory manager: the kernel's four-level page tables.
//!
//! The top-level table lives in the kernel image. The lower-level tables live
//! in physical page frames; they are modelled as a map from a frame's
//! physical address to its 512 entries. A table already in memory comes in
//! through `load_table`; a frame the tables have neither written nor loaded
//! reads as all zero entries.
use vstd::prelude::*;
use crate::memory::PAGE_SIZE;
use crate::memory::entry::{PageTableEntry, entry_present, entry_writable, entry_frame, with_present, with_writable, with_frame, pml4_index, pdpt_index, pd_index, pt_index, lemma_indices_bounded, law_entry_fields, lemma_zero_entry, FRAME_MASK};
use crate::memory::pmm::{PhysicalMemoryManager, allocate_result};

verus! {

/// What the page tables hold: the top-level table and the lower-level table
/// frames written so far, by physical address.
pub struct PageTablesView {
    pub pml4: Seq<u64>,
    pub tables: Map<u64, Seq<u64>>,
}

/// A table whose 512 entries are all zero.
pub open spec fn zero_table() -> Seq<u64> {
    Seq::new(512, |i: int| 0u64)
}

/// The entries of the table frame at physical address `addr`.
pub open spec fn table_of(v: PageTablesView, addr: u64) -> Seq<u64> {
    if v.tables.dom().contains(addr) {
        v.tables[addr]
    } else {
        zero_table()
    }
}

/// Entry `i` of the table frame at `addr`.
pub open spec fn read(v: PageTablesView, addr: u64, i: int) -> u64 {
    table_of(v, addr)[i]
}

/// The tables after entry `i` of the frame at `addr` is set to `e`.
pub open spec fn write(v: PageTablesView, addr: u64, i: int, e: u64) -> PageTablesView {
    PageTablesView { pml4: v.pml4, tables: v.tables.insert(addr, table_of(v, addr).update(i, e)) }
}

/// The tables after the frame at `addr` is filled with zeros.
pub open spec fn zero(v: PageTablesView, addr: u64) -> PageTablesView {
    PageTablesView { pml4: v.pml4, tables: v.tables.insert(addr, zero_table()) }
}

/// Physical address of the table an entry refers to.
pub open spec fn table_addr(e: u64) -> u64 {
    entry_frame(e) << 12
}

/// `true` when every table of the view holds 512 entries, the top level too.
pub open spec fn view_wf(v: PageTablesView) -> bool {
    &&& v.pml4.len() == 512
    &&& forall|a: u64| v.tables.dom().contains(a) ==> (#[trigger] v.tables[a]).len() == 512
}

/// An entry pointing at a new table at `ptr`: present, writable, frame of
/// `ptr`, the other bits of `e` kept.
pub open spec fn table_entry(e: u64, ptr: u64) -> u64 {
    with_frame(with_writable(with_present(e, true), true), ptr >> 12)
}

/// A last-level entry mapping the frame of `phys`: present, writable when bit
/// 0 of `flags` is set, the other bits of `e` kept.
pub open spec fn leaf_entry(e: u64, phys: u64, flags: u64) -> u64 {
    with_frame(with_writable(with_present(e, true), flags & 1 != 0), phys >> 12)
}

/// Makes top-level entry `i` present: when it is not, a page is taken off the
/// free list, zeroed, and the entry made to point at it.
pub open spec fn ensure_top(v: PageTablesView, pages: Seq<u64>, i: int) -> (PageTablesView, Seq<u64>) {
    if entry_present(v.pml4[i]) {
        (v, pages)
    } else {
        let ptr = allocate_result(pages).0;
        let z = zero(v, ptr);
        (PageTablesView { pml4: z.pml4.update(i, table_entry(z.pml4[i], ptr)), tables: z.tables }, allocate_result(pages).1)
    }
}

/// Makes entry `i` of the table at `addr` present: when it is not, a page is
/// taken off the free list, zeroed, and the entry (as it reads after the
/// zeroing) made to point at it.
pub open spec fn ensure_table(v: PageTablesView, pages: Seq<u64>, addr: u64, i: int) -> (PageTablesView, Seq<u64>) {
    if entry_present(read(v, addr, i)) {
        (v, pages)
    } else {
        let ptr = allocate_result(pages).0;
        let z = zero(v, ptr);
        (write(z, addr, i, table_entry(read(z, addr, i), ptr)), allocate_result(pages).1)
    }
}

/// The third-level table the walk for `virt` reaches.
pub open spec fn pdpt_of(v: PageTablesView, virt: u64) -> u64 {
    table_addr(v.pml4[pml4_index(virt) as int])
}

/// The second-level table the walk for `virt` reaches.
pub open spec fn pd_of(v: PageTablesView, virt: u64) -> u64 {
    table_addr(read(v, pdpt_of(v, virt), pdpt_index(virt) as int))
}

/// The last-level table the walk for `virt` reaches.
pub open spec fn pt_of(v: PageTablesView, virt: u64) -> u64 {
    table_addr(read(v, pd_of(v, virt), pd_index(virt) as int))
}

/// The frame number the walk for `virt` ends at, read from the last-level
/// entry whatever its present bit says.
pub open spec fn translate(v: PageTablesView, virt: u64) -> u64 {
    entry_frame(read(v, pt_of(v, virt), pt_index(virt) as int))
}

/// The tables and free list after mapping `virt` to the frame of `phys`.
pub open spec fn map_page_result(v: PageTablesView, pages: Seq<u64>, phys: u64, virt: u64, flags: u64) -> (
    PageTablesView,
    Seq<u64>,
) {
    let s1 = ensure_top(v, pages, pml4_index(virt) as int);
    let s2 = ensure_table(s1.0, s1.1, pdpt_of(s1.0, virt), pdpt_index(virt) as int);
    let pd = pd_of(s2.0, virt);
    let s3 = ensure_table(s2.0, s2.1, pd, pd_index(virt) as int);
    let pt = table_addr(read(s3.0, pd, pd_index(virt) as int));
    (write(s3.0, pt, pt_index(virt) as int, leaf_entry(read(s3.0, pt, pt_index(virt) as int), phys, flags)), s3.1)
}

/// The three lower-level tables `map_page` goes through for `virt`.
pub open spec fn map_page_tables(v: PageTablesView, pages: Seq<u64>, virt: u64) -> (u64, u64, u64) {
    let s1 = ensure_top(v, pages, pml4_index(virt) as int);
    let s2 = ensure_table(s1.0, s1.1, pdpt_of(s1.0, virt), pdpt_index(virt) as int);
    let pd = pd_of(s2.0, virt);
    let s3 = ensure_table(s2.0, s2.1, pd, pd_index(virt) as int);
    (pdpt_of(s1.0, virt), pd, table_addr(read(s3.0, pd, pd_index(virt) as int)))
}

/// The tables after the last-level entry for `virt` is cleared.
pub open spec fn unmap_page_result(v: PageTablesView, virt: u64) -> PageTablesView {
    write(v, pt_of(v, virt), pt_index(virt) as int, 0)
}

/// The tables and free list after mapping `n` consecutive pages from `start`
/// upwards, each to a frame freshly taken off the free list.
pub open spec fn allocate_range_result(v: PageTablesView, pages: Seq<u64>, start: u64, n: nat, flags: u64) -> (
    PageTablesView,
    Seq<u64>,
)
    decreases n,
{
    if n == 0 {
        (v, pages)
    } else {
        let prev = allocate_range_result(v, pages, start, (n - 1) as nat, flags);
        let taken = allocate_result(prev.1);
        map_page_result(prev.0, taken.1, taken.0, (start + (n - 1) * 4096) as u64, flags)
    }
}

/// The frames the walks for `n` consecutive pages from `addr` end at.
pub open spec fn range_frames(v: PageTablesView, addr: u64, n: nat) -> Seq<u64> {
    Seq::new(n, |i: int| translate(v, (addr + i * 4096) as u64))
}

/// The kernel's page tables.
pub struct PageTables {
    pml4: Vec<u64>,
    frames: Vec<u64>,
    tables: Vec<Vec<u64>>,
}

impl View for PageTables {
    type V = PageTablesView;

    closed spec fn view(&self) -> PageTablesView {
        PageTablesView {
            pml4: self.pml4@,
            tables: Map::new(
                |a: u64| self.frames@.contains(a),
                |a: u64| self.tables@[self.frames@.index_of(a)]@,
            ),
        }
    }
}

impl PageTables {
    /// The representation invariant.
    pub closed spec fn wf(&self) -> bool {
        &&& self.pml4@.len() == 512
        &&& self.frames@.len() == self.tables@.len()
        &&& self.frames@.no_duplicates()
        &&& forall|k: int| 0 <= k < self.tables@.len() ==> (#[trigger] self.tables@[k])@.len() == 512
    }

    /// The tables of well-formed page tables all hold 512 entries.
    pub proof fn lemma_view_wf(&self)
        requires
            self.wf(),
        ensures
            view_wf(self@),
    {
        assert forall|a: u64| self@.tables.dom().contains(a) implies (#[trigger] self@.tables[a]).len() == 512 by {
            let k = self.frames@.index_of(a);
            assert(0 <= k < self.frames@.len());
        }
    }

    /// Page tables whose top level has every entry writable and not present,
    /// and no lower-level table.
    pub fn new() -> (r: Self)
        ensures
            r.wf(),
            r@.pml4 == Seq::new(512, |i: int| with_writable(0, true)),
            r@.tables == Map::<u64, Seq<u64>>::empty(),
    {
        let mut e = PageTableEntry::new();
        e.set_writable(true);
        let mut pml4: Vec<u64> = Vec::new();
        let mut i: usize = 0;
        while i < 512
            invariant
                i <= 512,
                e.bits == with_writable(0, true),
                pml4@ == Seq::new(i as nat, |j: int| with_writable(0, true)),
            decreases 512 - i,
        {
            pml4.push(e.bits);
            i = i + 1;
            proof {
                assert(pml4@ =~= Seq::new(i as nat, |j: int| with_writable(0, true)));
            }
        }
        let r = Self { pml4, frames: Vec::new(), tables: Vec::new() };
        proof {
            assert(r@.tables =~= Map::<u64, Seq<u64>>::empty());
        }
        r
    }

    /// The top-level table.
    pub fn pml4_entries(&self) -> (r: Vec<u64>)
        ensures
            r@ == self@.pml4,
    {
        self.pml4.clone()
    }

    /// Position of the frame at `addr` among the written frames.
    fn find_frame(&self, addr: u64) -> (r: Option<usize>)
        requires
            self.wf(),
        ensures
            match r {
                Some(k) => k < self.frames@.len() && self.frames@[k as int] == addr && self.frames@.index_of(addr) == k,
                None => !self.frames@.contains(addr),
            },
    {
        let mut k: usize = 0;
        while k < self.frames.len()
            invariant
                self.wf(),
                k <= self.frames@.len(),
                forall|j: int| 0 <= j < k ==> self.frames@[j] != addr,
            decreases self.frames@.len() - k,
        {
            if self.frames[k] == addr {
                proof {
                    assert(self.frames@.contains(addr));
                    let w = self.frames@.index_of(addr);
                    assert(self.frames@[w] == addr);
                }
                return Some(k);
            }
            k = k + 1;
        }
        None
    }

    /// Entry `i` of the table frame at `addr`.
    pub fn read_entry(&self, addr: u64, i: usize) -> (r: u64)
        requires
            self.wf(),
            i < 512,
        ensures
            r == read(self@, addr, i as int),
    {
        match self.find_frame(addr) {
            Some(k) => self.tables[k][i],
            None => 0,
        }
    }

    /// Sets entry `i` of the table frame at `addr` to `e`.
    pub fn write_entry(&mut self, addr: u64, i: usize, e: u64)
        requires
            old(self).wf(),
            i < 512,
        ensures
            final(self).wf(),
            final(self)@ == write(old(self)@, addr, i as int, e),
    {
        match self.find_frame(addr) {
            Some(k) => {
                let mut t = self.tables[k].clone();
                proof {
                    assert(t@ =~= old(self).tables@[k as int]@);
                }
                t.set(i, e);
                self.tables.set(k, t);
                proof {
                    assert(self@.tables =~= write(old(self)@, addr, i as int, e).tables);
                }
            },
            None => {
                let mut t = zero_entries();
                t.set(i, e);
                self.frames.push(addr);
                self.tables.push(t);
                proof {
                    assert forall|a: u64| self.frames@.contains(a) && a != addr implies self.frames@.index_of(a)
                        == old(self).frames@.index_of(a) by {
                        let w = old(self).frames@.index_of(a);
                        assert(old(self).frames@.contains(a)) by {
                            let j = self.frames@.index_of(a);
                            assert(self.frames@[j] == a);
                            assert(j < old(self).frames@.len());
                            assert(old(self).frames@[j] == a);
                        }
                        assert(self.frames@[w] == a);
                    }
                    assert(self.frames@.index_of(addr) == old(self).frames@.len()) by {
                        assert(self.frames@[old(self).frames@.len() as int] == addr);
                    }
                    assert forall|a: u64| #[trigger] self.frames@.contains(a) <==> (old(self).frames@.contains(a) || a == addr) by {
                        if self.frames@.contains(a) && a != addr {
                            let j = self.frames@.index_of(a);
                            assert(j < old(self).frames@.len());
                            assert(old(self).frames@[j] == a);
                        }
                        if old(self).frames@.contains(a) {
                            let j = old(self).frames@.index_of(a);
                            assert(self.frames@[j] == a);
                        }
                        if a == addr {
                            assert(self.frames@[old(self).frames@.len() as int] == addr);
                        }
                    }
                    assert forall|a: u64| self.frames@.contains(a) && a != addr implies #[trigger] self.tables@[self.frames@.index_of(a)]
                        == old(self).tables@[old(self).frames@.index_of(a)] by {
                        let j = old(self).frames@.index_of(a);
                        assert(0 <= j < old(self).frames@.len());
                    }
                    assert(self@.tables =~= write(old(self)@, addr, i as int, e).tables);
                }
            },
        }
    }

    /// Fills the table frame at `addr` with zeros.
    pub fn zero_frame(&mut self, addr: u64)
        requires
            old(self).wf(),
        ensures
            final(self).wf(),
            final(self)@ == zero(old(self)@, addr),
    {
        self.load_table(addr, zero_entries());
    }

    /// Whether the table frame at `addr` is among the frames the tables hold
    /// (written by them or loaded).
    pub fn has_table(&self, addr: u64) -> (r: bool)
        requires
            self.wf(),
        ensures
            r == self@.tables.dom().contains(addr),
    {
        match self.find_frame(addr) {
            Some(_) => true,
            None => false,
        }
    }

    /// Takes the table frame at `addr` to hold `entries`: how a table that is
    /// already in memory (one the boot loader set up) comes into the tables.
    pub fn load_table(&mut self, addr: u64, entries: Vec<u64>)
        requires
            old(self).wf(),
            entries@.len() == 512,
        ensures
            final(self).wf(),
            final(self)@ == (PageTablesView { pml4: old(self)@.pml4, tables: old(self)@.tables.insert(addr, entries@) }),
    {
        match self.find_frame(addr) {
            Some(k) => {
                let t = entries;
                self.tables.set(k, t);
                proof {
                    assert(self@.tables =~= old(self)@.tables.insert(addr, t@));
                }
            },
            None => {
                let t = entries;
                self.frames.push(addr);
                self.tables.push(t);
                proof {
                    assert forall|a: u64| self.frames@.contains(a) && a != addr implies self.frames@.index_of(a)
                        == old(self).frames@.index_of(a) by {
                        let w = old(self).frames@.index_of(a);
                        assert(old(self).frames@.contains(a)) by {
                            let j = self.frames@.index_of(a);
                            assert(self.frames@[j] == a);
                            assert(j < old(self).frames@.len());
                            assert(old(self).frames@[j] == a);
                        }
                        assert(self.frames@[w] == a);
                    }
                    assert(self.frames@.index_of(addr) == old(self).frames@.len()) by {
                        assert(self.frames@[old(self).frames@.len() as int] == addr);
                    }
                    assert forall|a: u64| #[trigger] self.frames@.contains(a) <==> (old(self).frames@.contains(a) || a == addr) by {
                        if self.frames@.contains(a) && a != addr {
                            let j = self.frames@.index_of(a);
                            assert(j < old(self).frames@.len());
                            assert(old(self).frames@[j] == a);
                        }
                        if old(self).frames@.contains(a) {
                            let j = old(self).frames@.index_of(a);
                            assert(self.frames@[j] == a);
                        }
                        if a == addr {
                            assert(self.frames@[old(self).frames@.len() as int] == addr);
                        }
                    }
                    assert forall|a: u64| self.frames@.contains(a) && a != addr implies #[trigger] self.tables@[self.frames@.index_of(a)]
                        == old(self).tables@[old(self).frames@.index_of(a)] by {
                        let j = old(self).frames@.index_of(a);
                        assert(0 <= j < old(self).frames@.len());
                    }
                    assert(self@.tables =~= old(self)@.tables.insert(addr, t@));
                }
            },
        }
    }

    /// Makes entry `i` of the table at `addr` present, taking a zeroed page
    /// for the next table off the free list when it is not.
    fn ensure_entry(&mut self, pmm: &mut PhysicalMemoryManager, addr: u64, i: usize)
        requires
            old(self).wf(),
            old(pmm).wf(),
            i < 512,
        ensures
            final(self).wf(),
            final(pmm).wf(),
            final(pmm).hhdm() == old(pmm).hhdm(),
            (final(self)@, final(pmm).pages()) == ensure_table(old(self)@, old(pmm).pages(), addr, i as int),
    {
        let e = PageTableEntry::from_bits(self.read_entry(addr, i));
        if !e.present() {
            let ptr = pmm.allocate();
            self.zero_frame(ptr);
            let mut n = PageTableEntry::from_bits(self.read_entry(addr, i));
            n.set_present(true);
            n.set_writable(true);
            n.set_physical_address(ptr >> 12);
            self.write_entry(addr, i, n.bits);
        }
    }

    /// Maps the page at `virtaddr` to the frame of `physaddr`, creating the
    /// missing intermediate tables from pages of the free list. The last-level
    /// entry is made present, writable when bit 0 of `flags` is set, and
    /// pointed at the frame; its other bits are kept.
    pub fn map_page(&mut self, pmm: &mut PhysicalMemoryManager, physaddr: u64, virtaddr: u64, flags: u64)
        requires
            old(self).wf(),
            old(pmm).wf(),
        ensures
            final(self).wf(),
            final(pmm).wf(),
            final(pmm).hhdm() == old(pmm).hhdm(),
            (final(self)@, final(pmm).pages()) == map_page_result(old(self)@, old(pmm).pages(), physaddr, virtaddr, flags),
    {
        proof {
            lemma_indices_bounded(virtaddr);
        }
        let i4 = ((virtaddr >> 39) & 0x01FF) as usize;
        let i3 = ((virtaddr >> 30) & 0x01FF) as usize;
        let i2 = ((virtaddr >> 21) & 0x01FF) as usize;
        let i1 = ((virtaddr >> 12) & 0x01FF) as usize;
        let top = PageTableEntry::from_bits(self.pml4[i4]);
        if !top.present() {
            let ptr = pmm.allocate();
            self.zero_frame(ptr);
            let mut n = PageTableEntry::from_bits(self.pml4[i4]);
            n.set_present(true);
            n.set_writable(true);
            n.set_physical_address(ptr >> 12);
            self.pml4.set(i4, n.bits);
        }
        let ghost s1 = (self@, pmm.pages());
        proof {
            assert(s1 == ensure_top(old(self)@, old(pmm).pages(), pml4_index(virtaddr) as int));
        }
        let pdpt = PageTableEntry::from_bits(self.pml4[i4]).physical_address() << 12;
        proof {
            assert(i4 as int == pml4_index(virtaddr) as int);
            assert(pdpt == pdpt_of(s1.0, virtaddr));
        }
        self.ensure_entry(pmm, pdpt, i3);
        let ghost s2 = (self@, pmm.pages());
        let pd = PageTableEntry::from_bits(self.read_entry(pdpt, i3)).physical_address() << 12;
        proof {
            assert(s2.0.pml4 == s1.0.pml4);
            assert(pdpt == pdpt_of(s2.0, virtaddr));
            assert(pd == pd_of(s2.0, virtaddr));
        }
        self.ensure_entry(pmm, pd, i2);
        let ghost s3 = (self@, pmm.pages());
        let pt = PageTableEntry::from_bits(self.read_entry(pd, i2)).physical_address() << 12;
        proof {
            assert(s3.0.pml4 == s1.0.pml4);
        }
        let mut leaf = PageTableEntry::from_bits(self.read_entry(pt, i1));
        leaf.set_present(true);
        leaf.set_writable(flags & 1 != 0);
        leaf.set_physical_address(physaddr >> 12);
        self.write_entry(pt, i1, leaf.bits);
    }

    /// The frame number the walk for `virtaddr` ends at. The walk does not
    /// stop at entries that are not present.
    pub fn get_physaddr(&self, virtaddr: u64) -> (r: u64)
        requires
            self.wf(),
        ensures
            r == translate(self@, virtaddr),
    {
        proof {
            lemma_indices_bounded(virtaddr);
        }
        let i4 = ((virtaddr >> 39) & 0x01FF) as usize;
        let i3 = ((virtaddr >> 30) & 0x01FF) as usize;
        let i2 = ((virtaddr >> 21) & 0x01FF) as usize;
        let i1 = ((virtaddr >> 12) & 0x01FF) as usize;
        let pdpt = PageTableEntry::from_bits(self.pml4[i4]).physical_address() << 12;
        let pd = PageTableEntry::from_bits(self.read_entry(pdpt, i3)).physical_address() << 12;
        let pt = PageTableEntry::from_bits(self.read_entry(pd, i2)).physical_address() << 12;
        PageTableEntry::from_bits(self.read_entry(pt, i1)).physical_address()
    }

    /// Clears the last-level entry the walk for `virtaddr` ends at. Flushing
    /// the translation cache for the address is left to the caller.
    pub fn unmap_page(&mut self, virtaddr: u64)
        requires
            old(self).wf(),
        ensures
            final(self).wf(),
            final(self)@ == unmap_page_result(old(self)@, virtaddr),
    {
        proof {
            lemma_indices_bounded(virtaddr);
        }
        let i4 = ((virtaddr >> 39) & 0x01FF) as usize;
        let i3 = ((virtaddr >> 30) & 0x01FF) as usize;
        let i2 = ((virtaddr >> 21) & 0x01FF) as usize;
        let i1 = ((virtaddr >> 12) & 0x01FF) as usize;
        let pdpt = PageTableEntry::from_bits(self.pml4[i4]).physical_address() << 12;
        let pd = PageTableEntry::from_bits(self.read_entry(pdpt, i3)).physical_address() << 12;
        let pt = PageTableEntry::from_bits(self.read_entry(pd, i2)).physical_address() << 12;
        let mut leaf = PageTableEntry::from_bits(self.read_entry(pt, i1));
        leaf.set_bits(0);
        self.write_entry(pt, i1, leaf.bits);
    }

    /// Maps the `size / 4096` pages from `start` upwards, each to a page
    /// taken off the free list (0 when the list is empty).
    pub fn allocate(&mut self, pmm: &mut PhysicalMemoryManager, start: u64, size: usize, flags: u64)
        requires
            old(self).wf(),
            old(pmm).wf(),
            size / 4096 > 0 ==> start + (size / 4096 - 1) * 4096 <= u64::MAX,
        ensures
            final(self).wf(),
            final(pmm).wf(),
            final(pmm).hhdm() == old(pmm).hhdm(),
            (final(self)@, final(pmm).pages()) == allocate_range_result(
                old(self)@,
                old(pmm).pages(),
                start,
                (size / 4096) as nat,
                flags,
            ),
    {
        let n = size / 4096;
        let mut i: usize = 0;
        while i < n
            invariant
                self.wf(),
                pmm.wf(),
                pmm.hhdm() == old(pmm).hhdm(),
                i <= n,
                n == size / 4096,
                n > 0 ==> start + (n - 1) * 4096 <= u64::MAX,
                (self@, pmm.pages()) == allocate_range_result(old(self)@, old(pmm).pages(), start, i as nat, flags),
            decreases n - i,
        {
            proof {
                assert(start + i * 4096 <= u64::MAX) by (nonlinear_arith)
                    requires
                        i < n,
                        start + (n - 1) * 4096 <= u64::MAX,
                ;
            }
            let ptr = pmm.allocate();
            self.map_page(pmm, ptr, start + i as u64 * PAGE_SIZE, flags);
            i = i + 1;
        }
    }

    /// Maps the page at `start` to a page taken off the free list and returns
    /// that page (0 when the list was empty).
    pub fn allocate_with_ptr(&mut self, pmm: &mut PhysicalMemoryManager, start: u64, flags: u64) -> (r: u64)
        requires
            old(self).wf(),
            old(pmm).wf(),
        ensures
            final(self).wf(),
            final(pmm).wf(),
            final(pmm).hhdm() == old(pmm).hhdm(),
            r == allocate_result(old(pmm).pages()).0,
            (final(self)@, final(pmm).pages()) == map_page_result(
                old(self)@,
                allocate_result(old(pmm).pages()).1,
                r,
                start,
                flags,
            ),
    {
        let ptr = pmm.allocate();
        self.map_page(pmm, ptr, start, flags);
        ptr
    }

    /// Gives the frames behind the `size / 4096` pages from `addr` upwards
    /// back to the free list, lowest page first. What is handed back is what
    /// the walk for each page ends at: the entry's frame number.
    pub fn free(&self, pmm: &mut PhysicalMemoryManager, addr: u64, size: usize)
        requires
            self.wf(),
            old(pmm).wf(),
            size / 4096 > 0 ==> addr + (size / 4096 - 1) * 4096 <= u64::MAX,
            forall|i: int|
                0 <= i < size / 4096 ==> #[trigger] translate(self@, (addr + i * 4096) as u64) + old(pmm).hhdm()
                    <= u64::MAX,
        ensures
            final(pmm).wf(),
            final(pmm).hhdm() == old(pmm).hhdm(),
            final(pmm).pages() == old(pmm).pages() + range_frames(self@, addr, (size / 4096) as nat),
    {
        let n = size / 4096;
        let mut i: usize = 0;
        while i < n
            invariant
                self.wf(),
                pmm.wf(),
                pmm.hhdm() == old(pmm).hhdm(),
                i <= n,
                n == size / 4096,
                n > 0 ==> addr + (n - 1) * 4096 <= u64::MAX,
                forall|j: int|
                    0 <= j < n ==> #[trigger] translate(self@, (addr + j * 4096) as u64) + old(pmm).hhdm() <= u64::MAX,
                pmm.pages() == old(pmm).pages() + range_frames(self@, addr, i as nat),
            decreases n - i,
        {
            proof {
                assert(addr + i * 4096 <= u64::MAX) by (nonlinear_arith)
                    requires
                        i < n,
                        addr + (n - 1) * 4096 <= u64::MAX,
                ;
            }
            let frame = self.get_physaddr(addr + i as u64 * PAGE_SIZE);
            proof {
                assert(translate(self@, (addr + i * 4096) as u64) + old(pmm).hhdm() <= u64::MAX);
            }
            pmm.free(frame);
            proof {
                assert(pmm.pages() =~= old(pmm).pages() + range_frames(self@, addr, (i + 1) as nat));
            }
            i = i + 1;
        }
    }

    /// Sets up the kernel's top-level table: entry 0 is marked present and
    /// the upper half (entries 256..512) is copied from the boot loader's
    /// top-level table `boot_pml4`. Returns the physical address of the
    /// kernel's table (its virtual address `pml4_virt` less the kernel's
    /// virtual-to-physical offset), to be loaded into CR3.
    pub fn init_vmm(&mut self, phys_base: u64, virt_base: u64, boot_pml4: &[u64], pml4_virt: u64) -> (r: u64)
        requires
            old(self).wf(),
            virt_base >= phys_base,
            boot_pml4@.len() == 512,
            pml4_virt >= virt_base - phys_base,
        ensures
            final(self).wf(),
            final(self)@.tables == old(self)@.tables,
            final(self)@.pml4 == Seq::new(
                512,
                |i: int|
                    if i == 0 {
                        with_present(old(self)@.pml4[0], true)
                    } else if i < 256 {
                        old(self)@.pml4[i]
                    } else {
                        boot_pml4@[i]
                    },
            ),
            r == pml4_virt - (virt_base - phys_base),
    {
        let kernel_offset = virt_base - phys_base;
        let mut e = PageTableEntry::from_bits(self.pml4[0]);
        e.set_present(true);
        self.pml4.set(0, e.bits);
        let mut i: usize = 256;
        while i < 512
            invariant
                self.wf(),
                256 <= i <= 512,
                boot_pml4@.len() == 512,
                self@.tables == old(self)@.tables,
                forall|j: int|
                    0 <= j < 512 ==> #[trigger] self@.pml4[j] == if j == 0 {
                        with_present(old(self)@.pml4[0], true)
                    } else if j < 256 || j >= i {
                        old(self)@.pml4[j]
                    } else {
                        boot_pml4@[j]
                    },
            decreases 512 - i,
        {
            let ghost prev = self@.pml4;
            self.pml4.set(i, boot_pml4[i]);
            proof {
                assert(self@.pml4 == prev.update(i as int, boot_pml4@[i as int]));
            }
            i = i + 1;
            proof {
                assert forall|j: int| 0 <= j < 512 implies #[trigger] self@.pml4[j] == if j == 0 {
                    with_present(old(self)@.pml4[0], true)
                } else if j < 256 || j >= i {
                    old(self)@.pml4[j]
                } else {
                    boot_pml4@[j]
                } by {
                    if j != i - 1 {
                        assert(self@.pml4[j] == prev[j]);
                    }
                }
            }
        }
        proof {
            assert(self@.pml4 =~= Seq::new(
                512,
                |i: int|
                    if i == 0 {
                        with_present(old(self)@.pml4[0], true)
                    } else if i < 256 {
                        old(self)@.pml4[i]
                    } else {
                        boot_pml4@[i]
                    },
            ));
        }
        pml4_virt - kernel_offset
    }
}

/// `true` for a page frame address the entry format can hold: page aligned
/// and below 2^52.
pub open spec fn frame_addressable(p: u64) -> bool {
    p % 4096 == 0 && p < 0x10_0000_0000_0000
}

/// An entry made to point at a frame-addressable page refers back to that page.
pub proof fn lemma_table_entry_addr(e: u64, p: u64)
    requires
        frame_addressable(p),
    ensures
        table_addr(table_entry(e, p)) == p,
{
    let w = with_writable(with_present(e, true), true);
    assert(((((w & !(0xFF_FFFF_FFFFu64 << 12)) | (((p >> 12) & 0xFF_FFFF_FFFFu64) << 12)) >> 12) & 0xFF_FFFF_FFFFu64) << 12
        == p) by (bit_vector)
        requires
            p % 4096 == 0,
            p < 0x10_0000_0000_0000u64,
    ;
}

/// Every table address an entry refers to is frame-addressable.
pub proof fn lemma_table_addr_addressable(e: u64)
    ensures
        frame_addressable(table_addr(e)),
{
    assert((((e >> 12) & 0xFF_FFFF_FFFFu64) << 12) % 4096 == 0 && (((e >> 12) & 0xFF_FFFF_FFFFu64) << 12)
        < 0x10_0000_0000_0000u64) by (bit_vector);
}

/// Reading after a write or a zeroing of another frame.
proof fn lemma_read_other(v: PageTablesView, x: u64, i: int, e: u64, y: u64, j: int)
    requires
        x != y,
    ensures
        read(write(v, x, i, e), y, j) == read(v, y, j),
        read(zero(v, x), y, j) == read(v, y, j),
{
}

/// Mapping a page makes the walk for its address end at the mapped frame,
/// in a last-level entry that is present and writable exactly when bit 0 of
/// `flags` is set, provided the three lower-level tables the walk goes
/// through are distinct.
pub proof fn law_map_then_translate(v: PageTablesView, pages: Seq<u64>, phys: u64, virt: u64, flags: u64)
    requires
        view_wf(v),
        map_page_tables(v, pages, virt).0 != map_page_tables(v, pages, virt).1,
        map_page_tables(v, pages, virt).1 != map_page_tables(v, pages, virt).2,
        map_page_tables(v, pages, virt).0 != map_page_tables(v, pages, virt).2,
    ensures
        translate(map_page_result(v, pages, phys, virt, flags).0, virt) == (phys >> 12) & FRAME_MASK,
        ({
            let f = map_page_result(v, pages, phys, virt, flags).0;
            let leaf = read(f, pt_of(f, virt), pt_index(virt) as int);
            &&& entry_present(leaf)
            &&& entry_writable(leaf) == (flags & 1 != 0)
        }),
{
    lemma_indices_bounded(virt);
    let i4 = pml4_index(virt) as int;
    let i3 = pdpt_index(virt) as int;
    let i2 = pd_index(virt) as int;
    let i1 = pt_index(virt) as int;
    let s1 = ensure_top(v, pages, i4);
    let a = pdpt_of(s1.0, virt);
    let s2 = ensure_table(s1.0, s1.1, a, i3);
    let b = pd_of(s2.0, virt);
    let s3 = ensure_table(s2.0, s2.1, b, i2);
    let c = table_addr(read(s3.0, b, i2));
    let f = map_page_result(v, pages, phys, virt, flags).0;
    let leaf = leaf_entry(read(s3.0, c, i1), phys, flags);
    assert(f == write(s3.0, c, i1, leaf));
    assert(s2.0.pml4 == s1.0.pml4);
    assert(s3.0.pml4 == s1.0.pml4);
    assert(pdpt_of(f, virt) == a);
    if !entry_present(read(s2.0, b, i2)) {
        let ptr = allocate_result(s2.1).0;
        let z = zero(s2.0, ptr);
        // The frame taken for the new last-level table is not the table above
        // the one it is hooked into: either it is what the walk now reaches,
        // or it is no table address at all.
        lemma_table_addr_addressable(s1.0.pml4[i4]);
        if frame_addressable(ptr) {
            lemma_table_entry_addr(read(z, b, i2), ptr);
            assert(c == ptr);
        }
        assert(ptr != a);
        lemma_read_other(s2.0, ptr, 0, 0, a, i3);
        lemma_read_other(z, b, i2, table_entry(read(z, b, i2), ptr), a, i3);
    }
    assert(read(s3.0, a, i3) == read(s2.0, a, i3));
    lemma_read_other(s3.0, c, i1, leaf, a, i3);
    lemma_read_other(s3.0, c, i1, leaf, b, i2);
    assert(pd_of(f, virt) == b);
    assert(pt_of(f, virt) == c);
    assert(read(f, c, i1) == leaf) by {
        if s3.0.tables.dom().contains(c) {
            assert(table_of(s3.0, c).len() == 512) by {
                assert(view_wf(s3.0)) by { lemma_steps_wf(v, pages, virt); }
            }
        }
    }
    law_entry_fields(read(s3.0, c, i1), true, phys >> 12);
    law_entry_fields(with_present(read(s3.0, c, i1), true), flags & 1 != 0, phys >> 12);
    law_entry_fields(with_writable(with_present(read(s3.0, c, i1), true), flags & 1 != 0), true, phys >> 12);
}

/// Every step of `map_page` keeps all tables at 512 entries.
proof fn lemma_steps_wf(v: PageTablesView, pages: Seq<u64>, virt: u64)
    requires
        view_wf(v),
    ensures
        ({
            let s1 = ensure_top(v, pages, pml4_index(virt) as int);
            let s2 = ensure_table(s1.0, s1.1, pdpt_of(s1.0, virt), pdpt_index(virt) as int);
            let s3 = ensure_table(s2.0, s2.1, pd_of(s2.0, virt), pd_index(virt) as int);
            view_wf(s1.0) && view_wf(s2.0) && view_wf(s3.0)
        }),
{
    lemma_indices_bounded(virt);
    let s1 = ensure_top(v, pages, pml4_index(virt) as int);
    lemma_ensure_table_wf(s1.0, s1.1, pdpt_of(s1.0, virt), pdpt_index(virt) as int);
    let s2 = ensure_table(s1.0, s1.1, pdpt_of(s1.0, virt), pdpt_index(virt) as int);
    lemma_ensure_table_wf(s2.0, s2.1, pd_of(s2.0, virt), pd_index(virt) as int);
}

proof fn lemma_ensure_table_wf(v: PageTablesView, pages: Seq<u64>, addr: u64, i: int)
    requires
        view_wf(v),
        0 <= i < 512,
    ensures
        view_wf(ensure_table(v, pages, addr, i).0),
{
    let r = ensure_table(v, pages, addr, i).0;
    assert forall|a: u64| r.tables.dom().contains(a) implies (#[trigger] r.tables[a]).len() == 512 by {}
}

/// Unmapping a page clears the last-level entry the walk for its address
/// ends at (the entry becomes 0, so it is no longer present) and makes the
/// walk end at frame 0, provided the last-level table is neither of the two
/// tables above it.
pub proof fn law_unmap_then_translate(v: PageTablesView, virt: u64)
    requires
        view_wf(v),
        pt_of(v, virt) != pdpt_of(v, virt),
        pt_of(v, virt) != pd_of(v, virt),
    ensures
        translate(unmap_page_result(v, virt), virt) == 0,
        read(unmap_page_result(v, virt), pt_of(unmap_page_result(v, virt), virt), pt_index(virt) as int) == 0,
        !entry_present(read(unmap_page_result(v, virt), pt_of(unmap_page_result(v, virt), virt), pt_index(virt) as int)),
{
    lemma_indices_bounded(virt);
    let f = unmap_page_result(v, virt);
    let c = pt_of(v, virt);
    lemma_read_other(v, c, pt_index(virt) as int, 0, pdpt_of(v, virt), pdpt_index(virt) as int);
    lemma_read_other(v, c, pt_index(virt) as int, 0, pd_of(v, virt), pd_index(virt) as int);
    assert(pdpt_of(f, virt) == pdpt_of(v, virt));
    assert(pd_of(f, virt) == pd_of(v, virt));
    assert(pt_of(f, virt) == c);
    assert(read(f, c, pt_index(virt) as int) == 0);
    lemma_zero_entry();
}

/// A stack of free virtual page addresses; the last one is on top.
pub struct VirtualAllocator {
    free: Vec<u64>,
}

impl View for VirtualAllocator {
    type V = Seq<u64>;

    closed spec fn view(&self) -> Seq<u64> {
        self.free@
    }
}

impl VirtualAllocator {
    /// An empty stack.
    pub fn new() -> (r: Self)
        ensures
            r@ == Seq::<u64>::empty(),
    {
        Self { free: Vec::new() }
    }

    /// Takes the top address off the stack; 0 when the stack is empty.
    pub fn pop(&mut self) -> (r: u64)
        ensures
            (r, final(self)@) == allocate_result(old(self)@),
    {
        match self.free.pop() {
            Some(v) => v,
            None => 0,
        }
    }

    /// Puts `value` on top of the stack.
    pub fn push(&mut self, value: u64)
        ensures
            final(self)@ == old(self)@.push(value),
    {
        self.free.push(value);
    }
}

/// A page, by address.
#[derive(Debug, Clone, Copy)]
pub struct Page {
    pub addr: u64,
}

impl Page {
    /// The page at address 0.
    pub fn new() -> (r: Self)
        ensures
            r.addr == 0,
    {
        Self { addr: 0 }
    }

    /// Mapping through a page value changes nothing.
    pub fn map(&self, phys: usize, virt: usize, flags: u64) {
    }

    /// Unmapping through a page value changes nothing.
    pub fn unmap(&self) {
    }

    /// Remapping through a page value changes nothing.
    pub fn remap(&self) {
    }
}

/// 512 zero entries.
fn zero_entries() -> (r: Vec<u64>)
    ensures
        r@ == zero_table(),
{
    let mut t: Vec<u64> = Vec::new();
    let mut i: usize = 0;
    while i < 512
        invariant
            i <= 512,
            t@ == Seq::new(i as nat, |j: int| 0u64),
        decreases 512 - i,
    {
        t.push(0);
        i = i + 1;
        proof {
            assert(t@ =~= Seq::new(i as nat, |j: int| 0u64));
        }
    }
    t
}

} // verus!
