//! First-fit free-list heap allocator.
//!
//! The free list is kept as a sequence of regions in list order (the region
//! right after the list head comes first). Every region records the address
//! it starts at and its size in bytes.
use vstd::prelude::*;
use vstd::arithmetic::power2::is_pow2;
use vstd::arithmetic::div_mod::{lemma_fundamental_div_mod, lemma_fundamental_div_mod_converse, lemma_mod_multiples_basic};
use crate::memory::pmm::PhysicalMemoryManager;
use crate::memory::vmm::{PageTables, allocate_range_result};
use crate::memory::KERNEL_RW;
use crate::memory::bits::{lemma_align_down_pow2, lemma_pow2_divides, lemma_pow2_positive, lemma_pow2_le_half_range};

verus! {

/// Size in bytes of one free-list record (a size and a link, each one machine word).
pub const NODE_SIZE: usize = 16;

/// Alignment in bytes of one free-list record.
pub const NODE_ALIGN: usize = 8;

/// Virtual address at which the kernel heap starts.
pub const HEAP_START: u64 = 0xFFFF_8000_0000_0000;

/// Size in bytes of the kernel heap.
pub const HEAP_SIZE: usize = 4 * 1024 * 1024;

/// One free region of the heap: it starts at `start` and spans `size` bytes.
#[derive(Debug, Clone, Copy)]
pub struct Node {
    pub start: usize,
    pub size: usize,
}

/// The smallest multiple of `align` that is not below `addr`.
#[verifier::opaque]
pub open spec fn aligned_up(addr: int, align: int) -> int {
    ((addr + align - 1) / align) * align
}

/// End address (exclusive) of a region.
pub open spec fn node_end(n: Node) -> int {
    n.start + n.size
}

/// Where an allocation of `size` bytes aligned to `align` would start inside
/// `region`, or `None` when it does not fit: the aligned start plus `size`
/// must not overflow, must stay inside the region, and the bytes left over
/// after it must be either none or enough to hold a free-list record.
pub open spec fn region_fit(region: Node, size: int, align: int) -> Option<int> {
    let val = aligned_up(region.start as int, align);
    let end = val + size;
    if end > usize::MAX {
        None
    } else if end > node_end(region) {
        None
    } else if node_end(region) - end > 0 && node_end(region) - end < NODE_SIZE {
        None
    } else {
        Some(val)
    }
}

/// `true` when `align` can be added to the start of every region without overflow.
pub open spec fn regions_alignable(regions: Seq<Node>, align: int) -> bool {
    forall|i: int| 0 <= i < regions.len() ==> regions[i].start + align - 1 <= usize::MAX
}

/// `true` when no region of the list ends past the top of the address space.
pub open spec fn regions_in_range(regions: Seq<Node>) -> bool {
    forall|i: int| 0 <= i < regions.len() ==> #[trigger] node_end(regions[i]) <= usize::MAX
}

/// Index of the first region (in list order) that can hold the allocation.
pub open spec fn first_fit(regions: Seq<Node>, size: int, align: int) -> Option<int> {
    if exists|i: int|
        0 <= i < regions.len() && (#[trigger] region_fit(regions[i], size, align)) is Some {
        Some(
            choose|i: int|
                0 <= i < regions.len() && (#[trigger] region_fit(regions[i], size, align)) is Some
                    && forall|j: int| 0 <= j < i ==> region_fit(regions[j], size, align) is None,
        )
    } else {
        None
    }
}

/// What [`first_fit`] picks: a region that fits, with none before it that does.
pub proof fn lemma_first_fit(regions: Seq<Node>, size: int, align: int)
    ensures
        match first_fit(regions, size, align) {
            Some(i) => 0 <= i < regions.len() && region_fit(regions[i], size, align) is Some
                && forall|j: int| 0 <= j < i ==> region_fit(#[trigger] regions[j], size, align) is None,
            None => forall|j: int| 0 <= j < regions.len() ==> region_fit(#[trigger] regions[j], size, align) is None,
        },
{
    if exists|i: int|
        0 <= i < regions.len() && (#[trigger] region_fit(regions[i], size, align)) is Some {
        let w = choose|i: int|
            0 <= i < regions.len() && (#[trigger] region_fit(regions[i], size, align)) is Some;
        lemma_least_fit(regions, size, align, w);
    }
}

/// Below any fitting region there is a least fitting one.
proof fn lemma_least_fit(regions: Seq<Node>, size: int, align: int, w: int)
    requires
        0 <= w < regions.len(),
        region_fit(regions[w], size, align) is Some,
    ensures
        exists|i: int|
            0 <= i < regions.len() && (#[trigger] region_fit(regions[i], size, align)) is Some
                && forall|j: int| 0 <= j < i ==> region_fit(regions[j], size, align) is None,
    decreases w,
{
    if exists|j: int| 0 <= j < w && (#[trigger] region_fit(regions[j], size, align)) is Some {
        let j = choose|j: int| 0 <= j < w && (#[trigger] region_fit(regions[j], size, align)) is Some;
        lemma_least_fit(regions, size, align, j);
    } else {
        assert(forall|j: int| 0 <= j < w ==> region_fit(regions[j], size, align) is None);
    }
}

/// The size and alignment the allocator works with for a request: the
/// alignment is raised to that of a free-list record, the size is padded to a
/// multiple of that alignment and raised to the size of a free-list record.
pub open spec fn request_align(align: int) -> int {
    if align < NODE_ALIGN { NODE_ALIGN as int } else { align }
}

/// See [`request_align`].
pub open spec fn request_size(size: int, align: int) -> int {
    let padded = aligned_up(size, request_align(align));
    if padded < NODE_SIZE { NODE_SIZE as int } else { padded }
}

/// The free list after carving a block ending at `alloc_end` out of region `i`:
/// region `i` leaves the list and the bytes after the block, if any, are put
/// back at the front.
pub open spec fn carve(regions: Seq<Node>, i: int, alloc_end: int) -> Seq<Node> {
    let end = node_end(regions[i]);
    if end - alloc_end > 0 {
        seq![Node { start: alloc_end as usize, size: (end - alloc_end) as usize }] + regions.remove(i)
    } else {
        regions.remove(i)
    }
}

/// `true` when the regions `[a, a + n)` and `[b, b + m)` share no byte.
pub open spec fn ranges_disjoint(a: int, n: int, b: int, m: int) -> bool {
    a + n <= b || b + m <= a
}

/// `true` when no two regions of the list overlap.
pub open spec fn regions_disjoint(regions: Seq<Node>) -> bool {
    forall|i: int, j: int|
        0 <= i < regions.len() && 0 <= j < regions.len() && i != j ==> ranges_disjoint(
            #[trigger] regions[i].start as int,
            regions[i].size as int,
            #[trigger] regions[j].start as int,
            regions[j].size as int,
        )
}

/// `true` when every region of the list starts on a record boundary and can
/// hold a free-list record.
pub open spec fn regions_shaped(regions: Seq<Node>) -> bool {
    forall|i: int| 0 <= i < regions.len() ==> (#[trigger] regions[i]).start % NODE_ALIGN == 0
        && regions[i].size >= NODE_SIZE
}

/// `true` when the block `[start, start + size)` shares no byte with any region of the list.
pub open spec fn apart_from_regions(start: int, size: int, regions: Seq<Node>) -> bool {
    forall|k: int| 0 <= k < regions.len() ==> ranges_disjoint(start, size, #[trigger] regions[k].start as int, regions[k].size as int)
}

impl Node {
    /// A region of `size` bytes starting at `start`.
    pub fn new(start: usize, size: usize) -> (r: Self)
        ensures
            r.start == start,
            r.size == size,
    {
        Self { start, size }
    }

    /// The address the region starts at.
    pub fn get_start(&self) -> (r: usize)
        ensures
            r == self.start,
    {
        self.start
    }

    /// The address right past the end of the region.
    pub fn get_end(&self) -> (r: usize)
        requires
            node_end(*self) <= usize::MAX,
        ensures
            r == node_end(*self),
    {
        self.start + self.size
    }
}

/// The allocator: its free list of regions.
pub struct Allocator {
    regions: Vec<Node>,
}

impl View for Allocator {
    type V = Seq<Node>;

    closed spec fn view(&self) -> Seq<Node> {
        self.regions@
    }
}

impl Allocator {
    /// Rounds `addr` up to a multiple of the power of two `align`.
    pub fn align_up(addr: usize, align: usize) -> (r: usize)
        requires
            is_pow2(align as int),
            addr + align - 1 <= usize::MAX,
        ensures
            r == aligned_up(addr as int, align as int),
            r % align == 0,
            addr <= r < addr + align,
    {
        proof {
            lemma_pow2_positive(align as int);
        }
        reveal(aligned_up);
        let x: usize = addr + (align - 1);
        let r = x & !(align - 1);
        proof {
            lemma_align_down_pow2(x, align);
            lemma_fundamental_div_mod(x as int, align as int);
            assert(x - x % align == (x / align) * align) by (nonlinear_arith)
                requires
                    x as int == align * (x / align) + x % align,
            ;
            assert(0 <= x % align < align);
        }
        r
    }

    /// The size and alignment used for a request of `size` bytes aligned to `align`.
    pub fn size_align(size: usize, align: usize) -> (r: (usize, usize))
        requires
            is_pow2(align as int),
            aligned_up(size as int, request_align(align as int)) <= isize::MAX,
        ensures
            r.1 == request_align(align as int),
            r.0 == request_size(size as int, align as int),
            is_pow2(r.1 as int),
    {
        let a = if align < NODE_ALIGN { NODE_ALIGN } else { align };
        proof {
            reveal(aligned_up);
            if align < NODE_ALIGN {
                reveal_with_fuel(is_pow2, 5);
            }
            lemma_pow2_positive(a as int);
            lemma_pow2_le_half_range(a);
            lemma_fundamental_div_mod((size + a - 1) as int, a as int);
            assert(aligned_up(size as int, a as int) >= size) by (nonlinear_arith)
                requires
                    (size + a - 1) as int == a * ((size + a - 1) / a as int) + (size + a - 1) % (a as int),
                    0 <= (size + a - 1) % (a as int) < a,
                    a > 0,
                    aligned_up(size as int, a as int) == ((size + a - 1) / (a as int)) * a,
            ;
        }
        let padded = Self::align_up(size, a);
        let s = if padded < NODE_SIZE { NODE_SIZE } else { padded };
        (s, a)
    }

    /// An allocator with an empty free list.
    pub fn new() -> (r: Self)
        ensures
            r@ == Seq::<Node>::empty(),
    {
        Self { regions: Vec::new() }
    }

    /// The regions of the free list, in list order.
    pub fn regions(&self) -> (r: Vec<Node>)
        ensures
            r@ == self@,
    {
        self.regions.clone()
    }

    /// Puts the region `[start, start + size)` at the front of the free list.
    pub fn add(&mut self, start: usize, size: usize)
        ensures
            final(self)@ == seq![Node { start, size }] + old(self)@,
            start % NODE_ALIGN == 0 && size >= NODE_SIZE && regions_shaped(old(self)@) ==> regions_shaped(final(self)@),
            regions_disjoint(old(self)@) && apart_from_regions(start as int, size as int, old(self)@) ==> regions_disjoint(
                final(self)@,
            ),
    {
        self.regions.insert(0, Node::new(start, size));
        proof {
            assert(self@ =~= seq![Node { start, size }] + old(self)@);
            lemma_push_front_facts(old(self)@, Node { start, size });
        }
    }

    /// Gives a block back by address alone; the free list stays as it is.
    pub fn remove(&mut self, ptr: usize)
        ensures
            final(self)@ == old(self)@,
    {
    }

    /// Where an allocation of `size` bytes aligned to `align` starts in `region`, if it fits.
    pub fn allocate_from_region(region: &Node, size: usize, align: usize) -> (r: Option<usize>)
        requires
            is_pow2(align as int),
            region.start + align - 1 <= usize::MAX,
            node_end(*region) <= usize::MAX,
        ensures
            r matches Some(v) ==> region_fit(*region, size as int, align as int) == Some(v as int),
            r is None <==> region_fit(*region, size as int, align as int) is None,
    {
        let val = Self::align_up(region.get_start(), align);
        let end = match val.checked_add(size) {
            Some(e) => e,
            None => {
                return None;
            },
        };
        if end > region.get_end() {
            return None;
        }
        let excess = region.get_end() - end;
        if excess > 0 && excess < NODE_SIZE {
            return None;
        }
        Some(val)
    }

    /// Takes the first region that can hold `size` bytes aligned to `align`
    /// out of the free list and returns it with the address the block starts at.
    pub fn find(&mut self, size: usize, align: usize) -> (r: Option<(Node, usize)>)
        requires
            is_pow2(align as int),
            regions_alignable(old(self)@, align as int),
            regions_in_range(old(self)@),
        ensures
            match first_fit(old(self)@, size as int, align as int) {
                None => r is None && final(self)@ == old(self)@,
                Some(i) => r matches Some((n, v)) && n == old(self)@[i] && Some(v as int)
                    == region_fit(n, size as int, align as int) && final(self)@ == old(self)@.remove(i),
            },
    {
        let mut i: usize = 0;
        while i < self.regions.len()
            invariant
                is_pow2(align as int),
                self@ == old(self)@,
                regions_alignable(self@, align as int),
                regions_in_range(self@),
                0 <= i <= self@.len(),
                forall|j: int| 0 <= j < i ==> region_fit(self@[j], size as int, align as int) is None,
            decreases self@.len() - i,
        {
            let region = self.regions[i];
            proof {
                assert(node_end(self@[i as int]) <= usize::MAX);
            }
            match Self::allocate_from_region(&region, size, align) {
                Some(start) => {
                    let n = self.regions.remove(i);
                    proof {
                        lemma_first_fit(old(self)@, size as int, align as int);
                        let k = first_fit(old(self)@, size as int, align as int)->Some_0;
                        if k < i {
                        } else if k > i {
                            assert(region_fit(old(self)@[i as int], size as int, align as int) is None);
                        }
                        assert(k == i);
                    }
                    return Some((n, start));
                },
                None => {},
            }
            i = i + 1;
        }
        proof {
            lemma_first_fit(old(self)@, size as int, align as int);
        }
        None
    }

    /// Allocates `size` bytes aligned to `align` from the first region that
    /// can hold them and returns the block's address, or 0 when none can.
    /// The bytes of the region after the block go back to the front of the
    /// free list; those before it (alignment padding) leave the list.
    #[verifier::rlimit(50)]
    pub fn allocate(&mut self, size: usize, align: usize) -> (r: usize)
        requires
            is_pow2(align as int),
            aligned_up(size as int, request_align(align as int)) <= isize::MAX,
            regions_alignable(old(self)@, request_align(align as int)),
            regions_in_range(old(self)@),
        ensures
            regions_in_range(final(self)@),
            ({
                let s = request_size(size as int, align as int);
                let a = request_align(align as int);
                match first_fit(old(self)@, s, a) {
                    None => r == 0 && final(self)@ == old(self)@,
                    Some(i) => {
                        &&& Some(r as int) == region_fit(old(self)@[i], s, a)
                        &&& final(self)@ == carve(old(self)@, i, r + s)
                        &&& (r as int) % a == 0
                        &&& old(self)@[i].start <= r
                        &&& r + s <= node_end(old(self)@[i])
                        &&& regions_shaped(old(self)@) ==> regions_shaped(final(self)@)
                        &&& regions_disjoint(old(self)@) ==> regions_disjoint(final(self)@)
                        &&& regions_disjoint(old(self)@) ==> forall|k: int| 0 <= k < final(self)@.len()
                            ==> ranges_disjoint(r as int, s, #[trigger] final(self)@[k].start as int, final(self)@[k].size as int)
                    },
                }
            }),
    {
        let (s, a) = Self::size_align(size, align);
        match self.find(s, a) {
            Some((region, start)) => {
                proof {
                    lemma_first_fit(old(self)@, s as int, a as int);
                    lemma_fit_facts(region, s as int, a as int);
                    let i = first_fit(old(self)@, s as int, a as int)->Some_0;
                    assert(node_end(old(self)@[i]) <= usize::MAX);
                }
                let alloc_end = start + s;
                let excess = region.get_end() - alloc_end;
                if excess > 0 {
                    self.add(alloc_end, excess);
                }
                proof {
                    let i = first_fit(old(self)@, s as int, a as int)->Some_0;
                    assert(self@ =~= carve(old(self)@, i, alloc_end as int));
                    lemma_carve_facts(old(self)@, i, start as int, s as int);
                    lemma_request_facts(size as int, align as int);
                    lemma_pow2_positive(a as int);
                    lemma_fundamental_div_mod(start as int, a as int);
                    lemma_fundamental_div_mod(a as int, 8);
                    let q = start as int / a as int;
                    let t = a as int / 8;
                    assert(start as int + s as int == (t * q + s as int / 8) * 8) by (nonlinear_arith)
                        requires
                            start as int == a * q + (start as int) % (a as int),
                            (start as int) % (a as int) == 0,
                            a as int == 8 * t + (a as int) % 8,
                            (a as int) % 8 == 0,
                            (s as int) % 8 == 0,
                    {
                        lemma_fundamental_div_mod(s as int, 8);
                    }
                    lemma_mod_multiples_basic(t * q + s as int / 8, 8);
                    if regions_shaped(old(self)@) {
                        lemma_carve_shape(old(self)@, i, start as int + s as int);
                    }
                }
                start
            },
            None => 0,
        }
    }

    /// Gives the block at `ptr` of `size` bytes aligned to `align` back: it is
    /// put at the front of the free list with the size the allocator used for it.
    pub fn deallocate(&mut self, ptr: usize, size: usize, align: usize)
        requires
            is_pow2(align as int),
            aligned_up(size as int, request_align(align as int)) <= isize::MAX,
        ensures
            final(self)@ == seq![Node { start: ptr, size: request_size(size as int, align as int) as usize }] + old(self)@,
            ptr % NODE_ALIGN == 0 && regions_shaped(old(self)@) ==> regions_shaped(final(self)@),
            regions_disjoint(old(self)@) && apart_from_regions(ptr as int, request_size(size as int, align as int), old(self)@)
                ==> regions_disjoint(final(self)@),
    {
        proof {
            lemma_request_facts(size as int, align as int);
        }
        let (s, _) = Self::size_align(size, align);
        self.add(ptr, s);
    }
}

/// The request alignment is a multiple of a record's alignment, and the
/// request size is a multiple of it too and holds a record.
proof fn lemma_request_facts(size: int, align: int)
    requires
        is_pow2(align),
        0 <= size,
    ensures
        request_align(align) % 8 == 0,
        request_size(size, align) % 8 == 0,
        request_size(size, align) >= NODE_SIZE,
{
    let a = request_align(align);
    if align >= 8 {
        assert(is_pow2(8)) by {
            reveal_with_fuel(is_pow2, 4);
        }
        lemma_pow2_divides(a, 8);
    }
    reveal(aligned_up);
    let q = (size + a - 1) / a;
    assert(q >= 0) by (nonlinear_arith)
        requires
            a > 0,
            size >= 0,
            q == (size + a - 1) / a,
    ;
    lemma_fundamental_div_mod(a, 8);
    let t = a / 8;
    assert(q * a == (q * t) * 8) by (nonlinear_arith)
        requires
            a == 8 * t + a % 8,
            a % 8 == 0,
    ;
    lemma_mod_multiples_basic(q * t, 8);
}

/// Carving a block that ends on a record boundary out of a list of well-shaped
/// regions keeps every region well shaped.
proof fn lemma_carve_shape(regions: Seq<Node>, i: int, alloc_end: int)
    requires
        0 <= i < regions.len(),
        regions_shaped(regions),
        alloc_end % 8 == 0,
        0 <= alloc_end <= usize::MAX,
        node_end(regions[i]) <= usize::MAX,
        node_end(regions[i]) - alloc_end <= 0 || node_end(regions[i]) - alloc_end >= NODE_SIZE,
    ensures
        regions_shaped(carve(regions, i, alloc_end)),
{
    let rest = regions.remove(i);
    assert forall|k: int| 0 <= k < rest.len() implies (#[trigger] rest[k]).start % NODE_ALIGN == 0
        && rest[k].size >= NODE_SIZE by {
        let j = if k < i { k } else { k + 1 };
        assert(rest[k] == regions[j]);
    }
    let c = carve(regions, i, alloc_end);
    if node_end(regions[i]) - alloc_end > 0 {
        assert forall|k: int| 0 <= k < c.len() implies (#[trigger] c[k]).start % NODE_ALIGN == 0
            && c[k].size >= NODE_SIZE by {
            if k > 0 {
                assert(c[k] == rest[k - 1]);
            } else {
                assert(c[0].start == alloc_end);
                assert(c[0].size == node_end(regions[i]) - alloc_end);
            }
        }
    }
}

/// Putting a region at the front keeps the list well shaped when the region
/// is, and disjoint when the region shares no byte with the others.
proof fn lemma_push_front_facts(regions: Seq<Node>, n: Node)
    ensures
        n.start % NODE_ALIGN == 0 && n.size >= NODE_SIZE && regions_shaped(regions) ==> regions_shaped(
            seq![n] + regions,
        ),
        regions_disjoint(regions) && apart_from_regions(n.start as int, n.size as int, regions) ==> regions_disjoint(
            seq![n] + regions,
        ),
{
    let l = seq![n] + regions;
    if n.start % NODE_ALIGN == 0 && n.size >= NODE_SIZE && regions_shaped(regions) {
        assert forall|k: int| 0 <= k < l.len() implies (#[trigger] l[k]).start % NODE_ALIGN == 0
            && l[k].size >= NODE_SIZE by {
            if k > 0 {
                assert(l[k] == regions[k - 1]);
            }
        }
    }
    if regions_disjoint(regions) && apart_from_regions(n.start as int, n.size as int, regions) {
        assert forall|k: int, j: int| 0 <= k < l.len() && 0 <= j < l.len() && k != j implies ranges_disjoint(
            #[trigger] l[k].start as int, l[k].size as int, #[trigger] l[j].start as int, l[j].size as int) by {
            if k > 0 {
                assert(l[k] == regions[k - 1]);
            }
            if j > 0 {
                assert(l[j] == regions[j - 1]);
            }
            if k == 0 {
                assert(ranges_disjoint(n.start as int, n.size as int, regions[j - 1].start as int, regions[j - 1].size as int));
            } else if j == 0 {
                assert(ranges_disjoint(n.start as int, n.size as int, regions[k - 1].start as int, regions[k - 1].size as int));
            } else {
                assert(ranges_disjoint(regions[k - 1].start as int, regions[k - 1].size as int, regions[j - 1].start as int, regions[j - 1].size as int));
            }
        }
    }
}

/// The block reserved for a request covers the bytes asked for and can hold
/// a free-list record, and the alignment used is at least the one asked for
/// and that of a record. So a block handed out at `r` keeps `[r, r + size)`
/// inside its region, apart from what stays on the free list.
pub proof fn law_request_covers(size: usize, align: usize)
    requires
        is_pow2(align as int),
    ensures
        request_size(size as int, align as int) >= size,
        request_size(size as int, align as int) >= NODE_SIZE,
        request_align(align as int) >= align,
        request_align(align as int) >= NODE_ALIGN,
{
    let a = request_align(align as int);
    if align >= 8 {
        lemma_pow2_positive(align as int);
    }
    reveal(aligned_up);
    lemma_fundamental_div_mod(size + a - 1, a);
    assert(aligned_up(size as int, a) >= size) by (nonlinear_arith)
        requires
            size + a - 1 == a * ((size + a - 1) / a) + (size + a - 1) % a,
            0 <= (size + a - 1) % a < a,
            a > 0,
            aligned_up(size as int, a) == ((size + a - 1) / a) * a,
    ;
}

/// Giving back the block the allocator handed out at `p` for `size` bytes
/// aligned to `align`, and asking again for the same layout, hands out `p`
/// again and leaves the free list as it was before the block came back.
pub proof fn law_deallocate_then_allocate(regions: Seq<Node>, p: usize, size: usize, align: usize)
    requires
        is_pow2(align as int),
        p as int % request_align(align as int) == 0,
        p + request_size(size as int, align as int) <= usize::MAX,
    ensures
        ({
            let s = request_size(size as int, align as int);
            let a = request_align(align as int);
            let back = seq![Node { start: p, size: s as usize }] + regions;
            &&& first_fit(back, s, a) == Some(0int)
            &&& region_fit(back[0], s, a) == Some(p as int)
            &&& carve(back, 0, p + s) == regions
        }),
{
    let s = request_size(size as int, align as int);
    let a = request_align(align as int);
    let back = seq![Node { start: p, size: s as usize }] + regions;
    lemma_request_facts(size as int, align as int);
    reveal(aligned_up);
    lemma_fundamental_div_mod(p as int, a);
    let k = p as int / a;
    assert(p + a - 1 == k * a + (a - 1)) by (nonlinear_arith)
        requires
            p as int == a * k + (p as int) % a,
            (p as int) % a == 0,
    ;
    lemma_fundamental_div_mod_converse(p + a - 1, a, k, a - 1);
    assert(aligned_up(p as int, a) == p) by (nonlinear_arith)
        requires
            aligned_up(p as int, a) == ((p + a - 1) / a) * a,
            (p + a - 1) / a == k,
            p as int == a * k + (p as int) % a,
            (p as int) % a == 0,
    ;
    assert(back[0] == Node { start: p, size: s as usize });
    assert(region_fit(back[0], s, a) == Some(p as int));
    lemma_first_fit(back, s, a);
    assert(back.remove(0) =~= regions);
}

/// An allocation that fits in a region starts at an aligned address inside it.
proof fn lemma_fit_facts(region: Node, s: int, a: int)
    requires
        is_pow2(a),
        region_fit(region, s, a) is Some,
        0 <= s,
    ensures
        ({
            let v = region_fit(region, s, a)->Some_0;
            &&& v % a == 0
            &&& region.start <= v
            &&& v + s <= node_end(region)
        }),
{
    reveal(aligned_up);
    lemma_pow2_positive(a);
    let x = region.start + a - 1;
    lemma_fundamental_div_mod(x, a);
    lemma_mod_multiples_basic(x / a, a);
    assert(aligned_up(region.start as int, a) >= region.start) by (nonlinear_arith)
        requires
            x == a * (x / a) + x % a,
            0 <= x % a < a,
            x == region.start + a - 1,
            aligned_up(region.start as int, a) == (x / a) * a,
    ;
}

/// Removing a region keeps the others in range and disjoint, and each of
/// them disjoint from the removed one.
proof fn lemma_remove_facts(regions: Seq<Node>, i: int)
    requires
        0 <= i < regions.len(),
        regions_in_range(regions),
    ensures
        regions_in_range(regions.remove(i)),
        regions_disjoint(regions) ==> regions_disjoint(regions.remove(i)),
        regions_disjoint(regions) ==> forall|k: int| 0 <= k < regions.remove(i).len() ==> ranges_disjoint(
            regions[i].start as int, regions[i].size as int,
            #[trigger] regions.remove(i)[k].start as int, regions.remove(i)[k].size as int),
{
    let rest = regions.remove(i);
    assert forall|k: int| 0 <= k < rest.len() implies #[trigger] node_end(rest[k]) <= usize::MAX by {
        let j = if k < i { k } else { k + 1 };
        assert(rest[k] == regions[j]);
        assert(node_end(regions[j]) <= usize::MAX);
    }
    if regions_disjoint(regions) {
        assert forall|k: int| 0 <= k < rest.len() implies ranges_disjoint(
            regions[i].start as int, regions[i].size as int, #[trigger] rest[k].start as int, rest[k].size as int) by {
            let j = if k < i { k } else { k + 1 };
            assert(rest[k] == regions[j]);
            assert(ranges_disjoint(regions[i].start as int, regions[i].size as int, regions[j].start as int, regions[j].size as int));
        }
        assert forall|k: int, l: int| 0 <= k < rest.len() && 0 <= l < rest.len() && k != l implies ranges_disjoint(
            #[trigger] rest[k].start as int, rest[k].size as int, #[trigger] rest[l].start as int, rest[l].size as int) by {
            let jk = if k < i { k } else { k + 1 };
            let jl = if l < i { l } else { l + 1 };
            assert(rest[k] == regions[jk]);
            assert(rest[l] == regions[jl]);
            assert(ranges_disjoint(regions[jk].start as int, regions[jk].size as int, regions[jl].start as int, regions[jl].size as int));
        }
    }
}

/// Sets up the kernel heap: its pages are mapped to frames from the free
/// list, and the whole heap becomes the one region the allocator adds to
/// the front of its free list.
pub fn init_heap(allocator: &mut Allocator, tables: &mut PageTables, pmm: &mut PhysicalMemoryManager)
    requires
        usize::BITS == 64,
        old(tables).wf(),
        old(pmm).wf(),
    ensures
        final(tables).wf(),
        final(pmm).wf(),
        final(pmm).hhdm() == old(pmm).hhdm(),
        (final(tables)@, final(pmm).pages()) == allocate_range_result(
            old(tables)@,
            old(pmm).pages(),
            HEAP_START,
            (HEAP_SIZE / 4096) as nat,
            KERNEL_RW,
        ),
        final(allocator)@ == seq![Node { start: HEAP_START as usize, size: HEAP_SIZE }] + old(allocator)@,
{
    tables.allocate(pmm, HEAP_START, HEAP_SIZE, KERNEL_RW);
    allocator.add(HEAP_START as usize, HEAP_SIZE);
}

/// Carving a block out of a region keeps the list in range and, for a list of
/// disjoint regions, keeps it disjoint and disjoint from the block.
proof fn lemma_carve_facts(regions: Seq<Node>, i: int, v: int, s: int)
    requires
        0 <= i < regions.len(),
        regions_in_range(regions),
        regions[i].start <= v,
        0 <= s,
        v + s <= node_end(regions[i]),
    ensures
        regions_in_range(carve(regions, i, v + s)),
        regions_disjoint(regions) ==> regions_disjoint(carve(regions, i, v + s)),
        regions_disjoint(regions) ==> forall|k: int| 0 <= k < carve(regions, i, v + s).len()
            ==> ranges_disjoint(v, s, #[trigger] carve(regions, i, v + s)[k].start as int, carve(regions, i, v + s)[k].size as int),
{
    let c = carve(regions, i, v + s);
    let rest = regions.remove(i);
    lemma_remove_facts(regions, i);
    let end = node_end(regions[i]);
    if end - (v + s) > 0 {
        let head = Node { start: (v + s) as usize, size: (end - (v + s)) as usize };
        assert(c == seq![head] + rest);
        assert forall|k: int| 0 <= k < c.len() implies #[trigger] node_end(c[k]) <= usize::MAX by {
            if k > 0 {
                assert(c[k] == rest[k - 1]);
            }
        }
        if regions_disjoint(regions) {
            assert forall|k: int, l: int| 0 <= k < c.len() && 0 <= l < c.len() && k != l implies ranges_disjoint(
                #[trigger] c[k].start as int, c[k].size as int, #[trigger] c[l].start as int, c[l].size as int) by {
                if k > 0 {
                    assert(c[k] == rest[k - 1]);
                }
                if l > 0 {
                    assert(c[l] == rest[l - 1]);
                }
                if k > 0 && l > 0 {
                    assert(ranges_disjoint(rest[k - 1].start as int, rest[k - 1].size as int, rest[l - 1].start as int, rest[l - 1].size as int));
                } else if k == 0 {
                    assert(ranges_disjoint(regions[i].start as int, regions[i].size as int, rest[l - 1].start as int, rest[l - 1].size as int));
                } else {
                    assert(ranges_disjoint(regions[i].start as int, regions[i].size as int, rest[k - 1].start as int, rest[k - 1].size as int));
                }
            }
            assert forall|k: int| 0 <= k < c.len() implies ranges_disjoint(v, s, #[trigger] c[k].start as int, c[k].size as int) by {
                if k > 0 {
                    assert(c[k] == rest[k - 1]);
                    assert(ranges_disjoint(regions[i].start as int, regions[i].size as int, rest[k - 1].start as int, rest[k - 1].size as int));
                }
            }
        }
    } else {
        assert(c == rest);
        if regions_disjoint(regions) {
            assert forall|k: int| 0 <= k < c.len() implies ranges_disjoint(v, s, #[trigger] c[k].start as int, c[k].size as int) by {
                assert(ranges_disjoint(regions[i].start as int, regions[i].size as int, rest[k].start as int, rest[k].size as int));
            }
        }
    }
}

} // verus!
