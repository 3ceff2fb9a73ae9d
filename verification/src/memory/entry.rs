//! x86-64 page table entries and virtual address fields, as 64-bit words.
//!
//! Entry layout: bit 0 present, bit 1 writable, bit 2 user, bit 3 write
//! through, bit 4 cache disabled, bit 5 accessed, bit 6 dirty, bit 7 page
//! size, bit 8 global, bits 9..12 available, bits 12..52 physical frame
//! number, bits 52..59 available, bits 59..63 protection key, bit 63 no
//! execute.
use vstd::prelude::*;

verus! {

/// Mask of the 40-bit physical frame number field (before shifting into place).
pub const FRAME_MASK: u64 = 0xFF_FFFF_FFFF;

/// Mask of the 9-bit table index fields of a virtual address.
pub const INDEX_MASK: u64 = 0x1FF;

/// `true` when the present bit is set.
pub open spec fn entry_present(e: u64) -> bool {
    e & 1 == 1
}

/// `true` when the writable bit is set.
pub open spec fn entry_writable(e: u64) -> bool {
    e & 2 == 2
}

/// The physical frame number held in the entry.
pub open spec fn entry_frame(e: u64) -> u64 {
    (e >> 12) & FRAME_MASK
}

/// The entry with the present bit set to `b`, every other bit kept.
pub open spec fn with_present(e: u64, b: bool) -> u64 {
    if b { e | 1 } else { e & !1u64 }
}

/// The entry with the writable bit set to `b`, every other bit kept.
pub open spec fn with_writable(e: u64, b: bool) -> u64 {
    if b { e | 2 } else { e & !2u64 }
}

/// The entry with the frame number field set to the low 40 bits of `frame`,
/// every other bit kept.
pub open spec fn with_frame(e: u64, frame: u64) -> u64 {
    (e & !(FRAME_MASK << 12)) | ((frame & FRAME_MASK) << 12)
}

/// Index into the top-level table (bits 39..48 of the address).
pub open spec fn pml4_index(v: u64) -> u64 {
    (v >> 39) & INDEX_MASK
}

/// Index into the third-level table (bits 30..39 of the address).
pub open spec fn pdpt_index(v: u64) -> u64 {
    (v >> 30) & INDEX_MASK
}

/// Index into the second-level table (bits 21..30 of the address).
pub open spec fn pd_index(v: u64) -> u64 {
    (v >> 21) & INDEX_MASK
}

/// Index into the last-level table (bits 12..21 of the address).
pub open spec fn pt_index(v: u64) -> u64 {
    (v >> 12) & INDEX_MASK
}

/// A page table entry.
#[derive(Debug, Clone, Copy)]
pub struct PageTableEntry {
    pub bits: u64,
}

impl PageTableEntry {
    /// The all-zero entry.
    pub fn new() -> (r: Self)
        ensures
            r.bits == 0,
    {
        Self { bits: 0 }
    }

    /// The entry with the given bits.
    pub fn from_bits(bits: u64) -> (r: Self)
        ensures
            r.bits == bits,
    {
        Self { bits }
    }

    /// The entry's bits.
    pub fn into_bits(&self) -> (r: u64)
        ensures
            r == self.bits,
    {
        self.bits
    }

    /// Replaces all bits of the entry.
    pub fn set_bits(&mut self, bits: u64)
        ensures
            final(self).bits == bits,
    {
        self.bits = bits;
    }

    /// Whether the present bit is set.
    pub fn present(&self) -> (r: bool)
        ensures
            r == entry_present(self.bits),
    {
        self.bits & 1 == 1
    }

    /// Whether the writable bit is set.
    pub fn writable(&self) -> (r: bool)
        ensures
            r == entry_writable(self.bits),
    {
        self.bits & 2 == 2
    }

    /// The physical frame number.
    pub fn physical_address(&self) -> (r: u64)
        ensures
            r == entry_frame(self.bits),
            r <= FRAME_MASK,
    {
        let b = self.bits;
        let r = (b >> 12) & FRAME_MASK;
        assert(r <= FRAME_MASK) by (bit_vector)
            requires
                r == (b >> 12) & 0xFF_FFFF_FFFFu64,
        ;
        r
    }

    /// Sets the present bit to `b`.
    pub fn set_present(&mut self, b: bool)
        ensures
            final(self).bits == with_present(old(self).bits, b),
    {
        if b {
            self.bits = self.bits | 1;
        } else {
            self.bits = self.bits & !1u64;
        }
    }

    /// Sets the writable bit to `b`.
    pub fn set_writable(&mut self, b: bool)
        ensures
            final(self).bits == with_writable(old(self).bits, b),
    {
        if b {
            self.bits = self.bits | 2;
        } else {
            self.bits = self.bits & !2u64;
        }
    }

    /// Sets the frame number field to the low 40 bits of `frame`.
    pub fn set_physical_address(&mut self, frame: u64)
        ensures
            final(self).bits == with_frame(old(self).bits, frame),
    {
        self.bits = (self.bits & !(FRAME_MASK << 12)) | ((frame & FRAME_MASK) << 12);
    }
}

/// A virtual address split into its paging fields.
#[derive(Debug, Clone, Copy)]
pub struct VirtAddr {
    pub bits: u64,
}

impl VirtAddr {
    /// The address `n`.
    pub fn from_u64(n: u64) -> (r: Self)
        ensures
            r.bits == n,
    {
        Self { bits: n }
    }

    /// Offset inside the page (bits 0..12).
    pub fn offset(&self) -> (r: u64)
        ensures
            r == self.bits & 0xFFF,
    {
        self.bits & 0xFFF
    }

    /// Index into the last-level table.
    pub fn pt_index(&self) -> (r: u64)
        ensures
            r == pt_index(self.bits),
    {
        (self.bits >> 12) & INDEX_MASK
    }

    /// Index into the second-level table.
    pub fn pd_index(&self) -> (r: u64)
        ensures
            r == pd_index(self.bits),
    {
        (self.bits >> 21) & INDEX_MASK
    }

    /// Index into the third-level table.
    pub fn pdpt_index(&self) -> (r: u64)
        ensures
            r == pdpt_index(self.bits),
    {
        (self.bits >> 30) & INDEX_MASK
    }

    /// Index into the top-level table.
    pub fn pml4_index(&self) -> (r: u64)
        ensures
            r == pml4_index(self.bits),
    {
        (self.bits >> 39) & INDEX_MASK
    }

    /// The sign-extension bits (48..64).
    pub fn sign_extension(&self) -> (r: u64)
        ensures
            r == self.bits >> 48,
    {
        self.bits >> 48
    }
}

/// Every table index is below 512.
pub proof fn lemma_indices_bounded(v: u64)
    ensures
        pml4_index(v) < 512,
        pdpt_index(v) < 512,
        pd_index(v) < 512,
        pt_index(v) < 512,
{
    assert((v >> 39) & 0x1FFu64 < 512) by (bit_vector);
    assert((v >> 30) & 0x1FFu64 < 512) by (bit_vector);
    assert((v >> 21) & 0x1FFu64 < 512) by (bit_vector);
    assert((v >> 12) & 0x1FFu64 < 512) by (bit_vector);
}

/// Setting a field reads back what was set and leaves the other fields alone.
pub proof fn law_entry_fields(e: u64, b: bool, frame: u64)
    ensures
        entry_present(with_present(e, b)) == b,
        entry_writable(with_present(e, b)) == entry_writable(e),
        entry_frame(with_present(e, b)) == entry_frame(e),
        entry_writable(with_writable(e, b)) == b,
        entry_present(with_writable(e, b)) == entry_present(e),
        entry_frame(with_writable(e, b)) == entry_frame(e),
        entry_frame(with_frame(e, frame)) == frame & FRAME_MASK,
        entry_present(with_frame(e, frame)) == entry_present(e),
        entry_writable(with_frame(e, frame)) == entry_writable(e),
{
    assert((e | 1) & 1 == 1) by (bit_vector);
    assert((e & !1u64) & 1 == 0) by (bit_vector);
    assert(((e | 1) & 2 == 2) == (e & 2 == 2)) by (bit_vector);
    assert(((e & !1u64) & 2 == 2) == (e & 2 == 2)) by (bit_vector);
    assert(((e | 1) >> 12) & 0xFF_FFFF_FFFFu64 == (e >> 12) & 0xFF_FFFF_FFFFu64) by (bit_vector);
    assert(((e & !1u64) >> 12) & 0xFF_FFFF_FFFFu64 == (e >> 12) & 0xFF_FFFF_FFFFu64) by (bit_vector);
    assert((e | 2) & 2 == 2) by (bit_vector);
    assert((e & !2u64) & 2 == 0) by (bit_vector);
    assert(((e | 2) & 1 == 1) == (e & 1 == 1)) by (bit_vector);
    assert(((e & !2u64) & 1 == 1) == (e & 1 == 1)) by (bit_vector);
    assert(((e | 2) >> 12) & 0xFF_FFFF_FFFFu64 == (e >> 12) & 0xFF_FFFF_FFFFu64) by (bit_vector);
    assert(((e & !2u64) >> 12) & 0xFF_FFFF_FFFFu64 == (e >> 12) & 0xFF_FFFF_FFFFu64) by (bit_vector);
    let w = (e & !(0xFF_FFFF_FFFFu64 << 12)) | ((frame & 0xFF_FFFF_FFFFu64) << 12);
    assert((((e & !(0xFF_FFFF_FFFFu64 << 12)) | ((frame & 0xFF_FFFF_FFFFu64) << 12)) >> 12) & 0xFF_FFFF_FFFFu64
        == frame & 0xFF_FFFF_FFFFu64) by (bit_vector);
    assert((((e & !(0xFF_FFFF_FFFFu64 << 12)) | ((frame & 0xFF_FFFF_FFFFu64) << 12)) & 1 == 1) == (e & 1 == 1))
        by (bit_vector);
    assert((((e & !(0xFF_FFFF_FFFFu64 << 12)) | ((frame & 0xFF_FFFF_FFFFu64) << 12)) & 2 == 2) == (e & 2 == 2))
        by (bit_vector);
}

/// The zero entry is not present and holds frame 0.
pub proof fn lemma_zero_entry()
    ensures
        !entry_present(0),
        entry_frame(0) == 0,
{
    assert(0u64 & 1 == 0) by (bit_vector);
    assert((0u64 >> 12) & 0xFF_FFFF_FFFFu64 == 0) by (bit_vector);
}

} // verus!
