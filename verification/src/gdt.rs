//! Global descriptor table: segment descriptor encoding.
use vstd::prelude::*;

verus! {

/// Access byte type values.
pub const SEG_DATA_RD: u16 = 0x00;
pub const SEG_DATA_RDA: u16 = 0x01;
pub const SEG_DATA_RDWR: u16 = 0x02;
pub const SEG_DATA_RDWRA: u16 = 0x03;
pub const SEG_DATA_RDEXPD: u16 = 0x04;
pub const SEG_DATA_RDEXPDA: u16 = 0x05;
pub const SEG_DATA_RDWREXPD: u16 = 0x06;
pub const SEG_DATA_RDWREXPDA: u16 = 0x07;
pub const SEG_CODE_EX: u16 = 0x08;
pub const SEG_CODE_EXA: u16 = 0x09;
pub const SEG_CODE_EXRD: u16 = 0x0A;
pub const SEG_CODE_EXRDA: u16 = 0x0B;
pub const SEG_CODE_EXC: u16 = 0x0C;
pub const SEG_CODE_EXCA: u16 = 0x0D;
pub const SEG_CODE_EXRDC: u16 = 0x0E;
pub const SEG_CODE_EXRDCA: u16 = 0x0F;

/// Kernel code segment flags: descriptor type, present, long mode, 4 KiB
/// granularity, privilege 0, execute/read.
pub const GDT_CODE_PL0: u16 = 0xA09A;
/// Kernel data segment flags: as the kernel code segment, read/write data.
pub const GDT_DATA_PL0: u16 = 0xA092;
/// User code segment flags: as the kernel code segment, privilege 3.
pub const GDT_CODE_PL3: u16 = 0xA0FA;
/// User data segment flags: descriptor type, present, 32-bit size, 4 KiB
/// granularity, privilege 3, read/write data.
pub const GDT_DATA_PL3: u16 = 0xC0F2;

/// Number of descriptors in the kernel's table.
pub const GDT_ENTRIES: usize = 6;

/// The descriptor-type bit field.
pub fn seg_desktype(x: u16) -> (r: u16)
    ensures
        r == x << 4,
{
    x << 4
}

/// The present bit field.
pub fn seg_present(x: u16) -> (r: u16)
    ensures
        r == x << 7,
{
    x << 7
}

/// The available-for-system-use bit field.
pub fn seg_savl(x: u16) -> (r: u16)
    ensures
        r == x << 12,
{
    x << 12
}

/// The long-mode bit field.
pub fn seg_long(x: u16) -> (r: u16)
    ensures
        r == x << 13,
{
    x << 13
}

/// The size (16/32-bit) bit field.
pub fn seg_size(x: u16) -> (r: u16)
    ensures
        r == x << 14,
{
    x << 14
}

/// The granularity bit field.
pub fn seg_gran(x: u16) -> (r: u16)
    ensures
        r == x << 15,
{
    x << 15
}

/// The privilege level field (two bits).
pub fn seg_priv(x: u16) -> (r: u16)
    ensures
        r == (x & 3) << 5,
{
    (x & 0x03) << 5
}

/// The four segment flag words are the combinations of fields they are made of.
pub proof fn lemma_gdt_flags()
    ensures
        GDT_CODE_PL0 == (1u16 << 4) | (1u16 << 7) | (0u16 << 12) | (1u16 << 13) | (0u16 << 14) | (1u16 << 15) | ((0u16
            & 3) << 5) | SEG_CODE_EXRD,
        GDT_DATA_PL0 == (1u16 << 4) | (1u16 << 7) | (0u16 << 12) | (1u16 << 13) | (0u16 << 14) | (1u16 << 15) | ((0u16
            & 3) << 5) | SEG_DATA_RDWR,
        GDT_CODE_PL3 == (1u16 << 4) | (1u16 << 7) | (0u16 << 12) | (1u16 << 13) | (0u16 << 14) | (1u16 << 15) | ((3u16
            & 3) << 5) | SEG_CODE_EXRD,
        GDT_DATA_PL3 == (1u16 << 4) | (1u16 << 7) | (0u16 << 12) | (0u16 << 13) | (1u16 << 14) | (1u16 << 15) | ((3u16
            & 3) << 5) | SEG_DATA_RDWR,
{
    assert(0xA09Au16 == (1u16 << 4) | (1u16 << 7) | (0u16 << 12) | (1u16 << 13) | (0u16 << 14) | (1u16 << 15) | ((0u16
        & 3) << 5) | 0x0Au16) by (bit_vector);
    assert(0xA092u16 == (1u16 << 4) | (1u16 << 7) | (0u16 << 12) | (1u16 << 13) | (0u16 << 14) | (1u16 << 15) | ((0u16
        & 3) << 5) | 0x02u16) by (bit_vector);
    assert(0xA0FAu16 == (1u16 << 4) | (1u16 << 7) | (0u16 << 12) | (1u16 << 13) | (0u16 << 14) | (1u16 << 15) | ((3u16
        & 3) << 5) | 0x0Au16) by (bit_vector);
    assert(0xC0F2u16 == (1u16 << 4) | (1u16 << 7) | (0u16 << 12) | (0u16 << 13) | (1u16 << 14) | (1u16 << 15) | ((3u16
        & 3) << 5) | 0x02u16) by (bit_vector);
}

/// `true` when `d` is the segment descriptor for `base`, `limit` and `flag`
/// in the x86 layout: limit bits 0..16 in bits 0..16, base bits 0..24 in
/// bits 16..40, the low flag byte (access byte) in bits 40..48, limit bits
/// 16..20 in bits 48..52, flag bits 12..16 in bits 52..56, base bits 24..32
/// in bits 56..64.
pub open spec fn is_descriptor(d: u64, base: u32, limit: u32, flag: u16) -> bool {
    &&& d & 0xFFFF == (limit & 0xFFFF) as u64
    &&& (d >> 16) & 0xFF_FFFF == (base & 0xFF_FFFF) as u64
    &&& (d >> 40) & 0xFF == (flag & 0xFF) as u64
    &&& (d >> 48) & 0xF == ((limit >> 16) & 0xF) as u64
    &&& (d >> 52) & 0xF == ((flag >> 12) & 0xF) as u64
    &&& d >> 56 == (base >> 24) as u64
}

/// The segment descriptor for a segment of `limit` at `base` with the flag
/// word `flag` (access byte in the low byte, flags nibble in the high four bits;
/// bits 8..12 of `flag` are not used).
pub fn create_descriptor(base: u32, limit: u32, flag: u16) -> (r: u64)
    ensures
        is_descriptor(r, base, limit, flag),
{
    let mut descriptor: u64;
    descriptor = (limit & 0x000F0000) as u64;
    descriptor = descriptor | (((flag as u64) << 8) & 0x00F0FF00);
    descriptor = descriptor | ((base >> 16) as u64 & 0x000000FF);
    descriptor = descriptor | (base as u64 & 0xFF000000);
    descriptor = descriptor << 32;
    descriptor = descriptor | ((base << 16) as u64);
    descriptor = descriptor | ((limit & 0x0000FFFF) as u64);
    let d = descriptor;
    assert(is_descriptor(d, base, limit, flag)) by (bit_vector)
        requires
            d == ((((limit & 0x000F0000u32) as u64 | (((flag as u64) << 8) & 0x00F0FF00u64) | ((base >> 16) as u64
                & 0x000000FFu64) | (base as u64 & 0xFF000000u64)) << 32) | ((base << 16) as u64) | ((limit
                & 0x0000FFFFu32) as u64)),
    ;
    d
}

/// The fields of the layout cover all 64 bits: one word at most is the
/// descriptor for given base, limit and flag.
pub proof fn law_descriptor_unique(d1: u64, d2: u64, base: u32, limit: u32, flag: u16)
    requires
        is_descriptor(d1, base, limit, flag),
        is_descriptor(d2, base, limit, flag),
    ensures
        d1 == d2,
{
    assert(d1 == d2) by (bit_vector)
        requires
            d1 & 0xFFFF == d2 & 0xFFFF,
            (d1 >> 16) & 0xFF_FFFF == (d2 >> 16) & 0xFF_FFFF,
            (d1 >> 40) & 0xFF == (d2 >> 40) & 0xFF,
            (d1 >> 48) & 0xF == (d2 >> 48) & 0xF,
            (d1 >> 52) & 0xF == (d2 >> 52) & 0xF,
            d1 >> 56 == d2 >> 56,
    ;
}

/// The register that tells the processor where the descriptor table is:
/// its size in bytes less one, and its address.
#[derive(Debug, Clone, Copy)]
pub struct GlobalDescriptorTableRegister {
    pub limit: u16,
    pub base: u64,
}

impl GlobalDescriptorTableRegister {
    /// A register with limit and base zero.
    pub fn new() -> (r: Self)
        ensures
            r.limit == 0,
            r.base == 0,
    {
        Self { limit: 0, base: 0 }
    }
}

/// The kernel's descriptor table: the null descriptor, kernel code and data,
/// user code and data (all flat over the whole address space), and an unused
/// slot.
pub fn gdt_entries() -> (r: Vec<u64>)
    ensures
        r@.len() == GDT_ENTRIES,
        is_descriptor(r@[0], 0, 0, 0),
        is_descriptor(r@[1], 0, 0x000FFFFF, GDT_CODE_PL0),
        is_descriptor(r@[2], 0, 0x000FFFFF, GDT_DATA_PL0),
        is_descriptor(r@[3], 0, 0x000FFFFF, GDT_CODE_PL3),
        is_descriptor(r@[4], 0, 0x000FFFFF, GDT_DATA_PL3),
        r@[5] == 0,
{
    let mut gdt: Vec<u64> = Vec::new();
    gdt.push(create_descriptor(0, 0, 0));
    gdt.push(create_descriptor(0, 0x000FFFFF, GDT_CODE_PL0));
    gdt.push(create_descriptor(0, 0x000FFFFF, GDT_DATA_PL0));
    gdt.push(create_descriptor(0, 0x000FFFFF, GDT_CODE_PL3));
    gdt.push(create_descriptor(0, 0x000FFFFF, GDT_DATA_PL3));
    gdt.push(0);
    gdt
}

/// The register value for the kernel's table placed at `base`.
pub fn gdt_register(base: u64) -> (r: GlobalDescriptorTableRegister)
    ensures
        r.limit == GDT_ENTRIES * 8 - 1,
        r.base == base,
{
    let mut gdtr = GlobalDescriptorTableRegister::new();
    gdtr.limit = (GDT_ENTRIES * 8 - 1) as u16;
    gdtr.base = base;
    gdtr
}

} // verus!
