//! A frame allocator that hands out the usable frames of the boot loader's
//! memory map one after another.
use vstd::prelude::*;
use x86_64::PhysAddr;
use x86_64::structures::paging::{PhysFrame, Size4KiB};
use crate::memory::pmm::{MemoryMapEntry, ENTRY_USABLE};

verus! {

/// Highest physical address bit plus one: addresses must be below 2^52.
pub const PHYS_ADDR_LIMIT: u64 = 0x10_0000_0000_0000;

/// Number of 4 KiB steps from `base` that stay below `end`.
pub open spec fn step_count(base: u64, end: u64) -> int {
    if base < end {
        (end - base + 4095) / 4096
    } else {
        0
    }
}

/// The addresses an entry yields: from its base in 4 KiB steps while below
/// its length field (the length is taken as an end address).
pub open spec fn entry_steps(e: MemoryMapEntry) -> Seq<u64> {
    if e.entry_type == ENTRY_USABLE {
        Seq::new(step_count(e.base, e.length) as nat, |k: int| (e.base + k * 4096) as u64)
    } else {
        Seq::empty()
    }
}

/// The addresses of all entries, in map order.
pub open spec fn usable_steps(entries: Seq<MemoryMapEntry>) -> Seq<u64>
    decreases entries.len(),
{
    if entries.len() == 0 {
        Seq::empty()
    } else {
        usable_steps(entries.drop_last()) + entry_steps(entries.last())
    }
}

/// Start of the 4 KiB frame holding physical address `addr`, through
/// `PhysFrame::containing_address(PhysAddr::new(addr))` of the `x86_64`
/// crate. `PhysAddr::new` panics on addresses with any of bits 52..64 set,
/// and `containing_address` aligns down to the frame size, as the crate's
/// source shows.
#[verifier::external_body]
fn frame_containing(addr: u64) -> (r: u64)
    requires
        addr < PHYS_ADDR_LIMIT,
    ensures
        r == addr - addr % 4096,
{
    PhysFrame::<Size4KiB>::containing_address(PhysAddr::new(addr)).start_address().as_u64()
}

/// Hands out the frames of the memory map's usable entries in order.
pub struct BootInfoFrameAllocator {
    entries: Vec<MemoryMapEntry>,
    next: usize,
}

impl BootInfoFrameAllocator {
    /// The entries the frames come from.
    pub closed spec fn map(&self) -> Seq<MemoryMapEntry> {
        self.entries@
    }

    /// How many frames were asked for so far.
    pub closed spec fn handed_out(&self) -> nat {
        self.next as nat
    }

    /// An allocator over `entries` that has handed out nothing yet.
    pub fn init(entries: Vec<MemoryMapEntry>) -> (r: Self)
        ensures
            r.map() == entries@,
            r.handed_out() == 0,
    {
        Self { entries, next: 0 }
    }

    /// The next frame: the start of the frame holding the next address the
    /// usable entries yield, or `None` once they are exhausted. Each call
    /// moves on by one, found or not.
    pub fn allocate_frame(&mut self) -> (r: Option<u64>)
        requires
            old(self).handed_out() < usize::MAX,
            forall|k: int|
                0 <= k <= old(self).handed_out() && k < usable_steps(old(self).map()).len() ==> #[trigger] usable_steps(
                    old(self).map(),
                )[k] < PHYS_ADDR_LIMIT,
        ensures
            final(self).map() == old(self).map(),
            final(self).handed_out() == old(self).handed_out() + 1,
            ({
                let steps = usable_steps(old(self).map());
                let n = old(self).handed_out() as int;
                if n < steps.len() {
                    r == Some((steps[n] - steps[n] % 4096) as u64)
                } else {
                    r is None
                }
            }),
    {
        let n = self.next;
        let mut idx = n;
        let mut i: usize = 0;
        let mut found: Option<u64> = None;
        let ghost steps = usable_steps(self.entries@);
        proof {
            assert forall|k: int| 0 <= k <= n && k < steps.len() implies #[trigger] steps[k] < PHYS_ADDR_LIMIT by {
                assert(usable_steps(old(self).map())[k] < PHYS_ADDR_LIMIT);
            }
        }
        while i < self.entries.len()
            invariant
                i <= self.entries@.len(),
                steps == usable_steps(self.entries@),
                n == self.next,
                found is None ==> usable_steps(self.entries@.subrange(0, i as int)).len() + idx == n,
                found is Some ==> n < steps.len() && found == Some((steps[n as int] - steps[n as int] % 4096) as u64),
                forall|k: int| 0 <= k <= n && k < steps.len() ==> #[trigger] steps[k] < PHYS_ADDR_LIMIT,
            decreases self.entries@.len() - i,
        {
            if found.is_none() {
                let e = self.entries[i];
                proof {
                    lemma_usable_steps_split(self.entries@, i as int);
                }
                if e.entry_type == ENTRY_USABLE && e.base < e.length {
                    let span = e.length - e.base;
                    let cnt: u64 = span / 4096 + if span % 4096 != 0 { 1 } else { 0 };
                    proof {
                        assert(cnt == step_count(e.base, e.length)) by (nonlinear_arith)
                            requires
                                span == e.length - e.base,
                                cnt == span / 4096 + if span % 4096 != 0 { 1int } else { 0 },
                                step_count(e.base, e.length) == (span + 4095) / 4096,
                        {}
                    }
                    if (idx as u64) < cnt {
                        proof {
                            assert(idx * 4096 < span) by (nonlinear_arith)
                                requires
                                    idx < cnt,
                                    cnt == span / 4096 + if span % 4096 != 0 { 1int } else { 0 },
                            {}
                            let pre = usable_steps(self.entries@.subrange(0, i as int));
                            lemma_usable_steps_prefix(self.entries@, i + 1);
                            assert(usable_steps(self.entries@.subrange(0, i + 1))[n as int] == entry_steps(e)[idx as int]);
                            assert(steps[n as int] == entry_steps(e)[idx as int]);
                            assert(steps[n as int] < PHYS_ADDR_LIMIT);
                        }
                        let addr = e.base + (idx as u64) * 4096;
                        found = Some(frame_containing(addr));
                    } else {
                        idx = idx - (cnt as usize);
                    }
                }
            }
            i = i + 1;
        }
        proof {
            assert(self.entries@.subrange(0, self.entries@.len() as int) =~= self.entries@);
        }
        self.next = self.next + 1;
        found
    }
}

/// The addresses of a prefix of the entries come first among those of all entries.
proof fn lemma_usable_steps_prefix(entries: Seq<MemoryMapEntry>, j: int)
    requires
        0 <= j <= entries.len(),
    ensures
        usable_steps(entries.subrange(0, j)).len() <= usable_steps(entries).len(),
        forall|k: int| 0 <= k < usable_steps(entries.subrange(0, j)).len() ==> #[trigger] usable_steps(entries)[k]
            == usable_steps(entries.subrange(0, j))[k],
    decreases entries.len() - j,
{
    if j == entries.len() {
        assert(entries.subrange(0, j) =~= entries);
    } else {
        lemma_usable_steps_prefix(entries, j + 1);
        lemma_usable_steps_split(entries, j);
    }
}

/// The addresses of the first `i + 1` entries are those of the first `i`
/// followed by those of entry `i`.
proof fn lemma_usable_steps_split(entries: Seq<MemoryMapEntry>, i: int)
    requires
        0 <= i < entries.len(),
    ensures
        usable_steps(entries.subrange(0, i + 1)) == usable_steps(entries.subrange(0, i)) + entry_steps(entries[i]),
{
    assert(entries.subrange(0, i + 1).drop_last() =~= entries.subrange(0, i));
}

} // verus!
