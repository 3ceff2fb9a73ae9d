//! ACPI tables: the processor vendor string, the root table's entries and
//! the records of the interrupt controller table (MADT).
use vstd::prelude::*;

verus! {

/// Size in bytes of a system description table header.
pub const SDT_HEADER_SIZE: u32 = 36;

/// Size in bytes of the MADT's fixed part (header, local controller
/// address, flags); its records follow.
pub const MADT_HEADER_SIZE: u32 = 44;

/// Local APIC register offsets.
pub const LAPIC_ID_REGISTER: u32 = 0x020;
pub const LAPIC_VERSION_REGISTER: u32 = 0x030;
pub const TASK_PRIORITY_REGISTER: u32 = 0x080;
pub const EOI: u32 = 0x0b0;
pub const SPURIOUS_INTERRUPT_VECTOR_REGISTER: u32 = 0x0f0;
pub const LVT_TIMER_REGISTER: u32 = 0x320;
pub const INITIAL_COUNT_REGISTER: u32 = 0x380;
pub const CURRENT_COUNT_REGISTER: u32 = 0x390;
pub const DIVIDE_CONFIGURATION_REGISTER: u32 = 0x3e0;

/// Byte `i` (0 is the lowest) of `w`.
pub open spec fn byte_of(w: u32, i: int) -> u8 {
    ((w as int / pow256(i)) % 256) as u8
}

/// 256 to the power `i`, for `i` in 0..4.
pub open spec fn pow256(i: int) -> int {
    if i == 0 {
        1
    } else if i == 1 {
        0x100
    } else if i == 2 {
        0x1_0000
    } else {
        0x100_0000
    }
}

/// The twelve bytes of the vendor string: the bytes of `ebx`, then `edx`,
/// then `ecx`, each lowest byte first.
pub open spec fn vendor_bytes(ebx: u32, edx: u32, ecx: u32) -> Seq<u8> {
    Seq::new(12, |k: int| byte_of(if k < 4 { ebx } else if k < 8 { edx } else { ecx }, k % 4))
}

/// The bytes of `w`, lowest first.
fn push_le_bytes(out: &mut Vec<u8>, w: u32)
    ensures
        final(out)@ == old(out)@ + seq![byte_of(w, 0), byte_of(w, 1), byte_of(w, 2), byte_of(w, 3)],
{
    let b0 = (w & 0xFF) as u8;
    let b1 = ((w >> 8) & 0xFF) as u8;
    let b2 = ((w >> 16) & 0xFF) as u8;
    let b3 = ((w >> 24) & 0xFF) as u8;
    assert(w & 0xFF == w % 0x100) by (bit_vector);
    assert((w >> 8) & 0xFF == (w / 0x100) % 0x100) by (bit_vector);
    assert((w >> 16) & 0xFF == (w / 0x1_0000) % 0x100) by (bit_vector);
    assert((w >> 24) & 0xFF == (w / 0x100_0000) % 0x100) by (bit_vector);
    out.push(b0);
    out.push(b1);
    out.push(b2);
    out.push(b3);
    proof {
        assert(out@ =~= old(out)@ + seq![byte_of(w, 0), byte_of(w, 1), byte_of(w, 2), byte_of(w, 3)]);
    }
}

/// The processor vendor string from the registers `cpuid` leaf 0 returns.
pub fn get_vendor_id(ebx: u32, edx: u32, ecx: u32) -> (r: Vec<u8>)
    ensures
        r@ == vendor_bytes(ebx, edx, ecx),
{
    let mut out: Vec<u8> = Vec::new();
    push_le_bytes(&mut out, ebx);
    push_le_bytes(&mut out, edx);
    push_le_bytes(&mut out, ecx);
    proof {
        assert(out@ =~= vendor_bytes(ebx, edx, ecx));
    }
    out
}

/// The little-endian 32-bit word in bytes `off..off + 4` of `b`.
pub open spec fn le_u32(b: Seq<u8>, off: int) -> int {
    b[off] + b[off + 1] * 0x100 + b[off + 2] * 0x1_0000 + b[off + 3] * 0x100_0000
}

/// The little-endian 32-bit word in bytes `off..off + 4` of `bytes`.
fn read_le_u32(bytes: &[u8], off: usize) -> (r: u32)
    requires
        off + 4 <= bytes@.len(),
    ensures
        r == le_u32(bytes@, off as int),
{
    bytes[off] as u32 + bytes[off + 1] as u32 * 0x100 + bytes[off + 2] as u32 * 0x1_0000 + bytes[off + 3] as u32
        * 0x100_0000
}

/// Physical address of the root table, read from the root pointer's first
/// 20 bytes: the 32-bit field at bytes 16..20 (after the signature, checksum,
/// OEM id and revision).
pub fn rsdt_address(rsdp: &[u8]) -> (r: u32)
    requires
        rsdp@.len() >= 20,
    ensures
        r == le_u32(rsdp@, 16),
{
    read_le_u32(rsdp, 16)
}

/// Length in bytes of a system description table, read from its header:
/// the 32-bit field at bytes 4..8, after the signature.
pub fn table_length(header: &[u8]) -> (r: u32)
    requires
        header@.len() >= 8,
    ensures
        r == le_u32(header@, 4),
{
    read_le_u32(header, 4)
}

/// Number of table pointers in a root table of `length` bytes (four bytes
/// each, after the header).
pub fn rsdt_entry_count(length: u32) -> (r: usize)
    requires
        length >= SDT_HEADER_SIZE,
    ensures
        r == (length - SDT_HEADER_SIZE) / 4,
{
    ((length - SDT_HEADER_SIZE) / 4) as usize
}

/// Address of the `i`-th table pointer of the root table at `root`.
pub fn rsdt_entry_address(root: u64, i: u64) -> (r: u64)
    requires
        root + SDT_HEADER_SIZE + i * 4 <= u64::MAX,
    ensures
        r == root + SDT_HEADER_SIZE + i * 4,
{
    root + SDT_HEADER_SIZE as u64 + i * 4
}

/// Position of the first table whose signature is `target`.
pub fn find_signature(signatures: &[[u8; 4]], target: &[u8; 4]) -> (r: Option<usize>)
    ensures
        match r {
            Some(i) => i < signatures@.len() && signatures@[i as int]@ == target@ && forall|j: int|
                0 <= j < i ==> signatures@[j]@ != target@,
            None => forall|j: int| 0 <= j < signatures@.len() ==> signatures@[j]@ != target@,
        },
{
    let mut i: usize = 0;
    while i < signatures.len()
        invariant
            i <= signatures@.len(),
            forall|j: int| 0 <= j < i ==> signatures@[j]@ != target@,
        decreases signatures@.len() - i,
    {
        let s = signatures[i];
        if s[0] == target[0] && s[1] == target[1] && s[2] == target[2] && s[3] == target[3] {
            proof {
                assert(s@ =~= target@);
            }
            return Some(i);
        }
        proof {
            assert(s@ != target@) by {
                if s@ == target@ {
                    assert(s@[0] == target@[0]);
                    assert(s@[1] == target@[1]);
                    assert(s@[2] == target@[2]);
                    assert(s@[3] == target@[3]);
                }
            }
        }
        i = i + 1;
    }
    None
}

/// Kinds of MADT records.
#[derive(Debug, Clone, Copy, PartialEq, Eq, Structural)]
pub enum MadtEntryKind {
    ProcessorLocalApic,
    IoApic,
    InterruptSourceOverride,
    IoApicNmiSource,
    LocalApicNmi,
    LocalApicAddressOverride,
    ProcessorLocalX2Apic,
    Unknown,
}

/// The kind of a record of type `t`.
pub open spec fn kind_of(t: u8) -> MadtEntryKind {
    if t == 0 {
        MadtEntryKind::ProcessorLocalApic
    } else if t == 1 {
        MadtEntryKind::IoApic
    } else if t == 2 {
        MadtEntryKind::InterruptSourceOverride
    } else if t == 3 {
        MadtEntryKind::IoApicNmiSource
    } else if t == 4 {
        MadtEntryKind::LocalApicNmi
    } else if t == 5 {
        MadtEntryKind::LocalApicAddressOverride
    } else if t == 9 {
        MadtEntryKind::ProcessorLocalX2Apic
    } else {
        MadtEntryKind::Unknown
    }
}

/// The record kinds of the ACPI specification's MADT record types: 0 processor
/// local APIC, 1 I/O APIC, 2 interrupt source override, 3 I/O APIC NMI
/// source, 4 local APIC NMI, 5 local APIC address override, 9 processor
/// local x2APIC; other types are not known.
pub proof fn law_madt_kinds(t: u8)
    ensures
        t == 0 ==> kind_of(t) == MadtEntryKind::ProcessorLocalApic,
        t == 1 ==> kind_of(t) == MadtEntryKind::IoApic,
        t == 2 ==> kind_of(t) == MadtEntryKind::InterruptSourceOverride,
        t == 3 ==> kind_of(t) == MadtEntryKind::IoApicNmiSource,
        t == 4 ==> kind_of(t) == MadtEntryKind::LocalApicNmi,
        t == 5 ==> kind_of(t) == MadtEntryKind::LocalApicAddressOverride,
        t == 9 ==> kind_of(t) == MadtEntryKind::ProcessorLocalX2Apic,
        (t > 5 && t != 9) ==> kind_of(t) == MadtEntryKind::Unknown,
{
}

/// The kind of a record of type `t`.
pub fn classify(t: u8) -> (r: MadtEntryKind)
    ensures
        r == kind_of(t),
{
    match t {
        0 => MadtEntryKind::ProcessorLocalApic,
        1 => MadtEntryKind::IoApic,
        2 => MadtEntryKind::InterruptSourceOverride,
        3 => MadtEntryKind::IoApicNmiSource,
        4 => MadtEntryKind::LocalApicNmi,
        5 => MadtEntryKind::LocalApicAddressOverride,
        9 => MadtEntryKind::ProcessorLocalX2Apic,
        _ => MadtEntryKind::Unknown,
    }
}

/// A record of the MADT: where it starts (from the table's start), its type,
/// its length in bytes and its kind.
#[derive(Debug, Clone, Copy, PartialEq, Eq, Structural)]
pub struct MadtRecord {
    pub offset: u64,
    pub entry_type: u8,
    pub record_length: u8,
    pub kind: MadtEntryKind,
}

/// The record starting at `off`.
pub open spec fn record_at(table: Seq<u8>, off: int) -> MadtRecord {
    MadtRecord {
        offset: off as u64,
        entry_type: table[off],
        record_length: table[off + 1],
        kind: kind_of(table[off]),
    }
}

/// The records from `off` up to `end`, each found at the previous one's
/// offset plus its length; `None` when a record's two leading bytes are
/// not in `table` or a record has length 0 (the walk would never end).
pub open spec fn madt_walk(table: Seq<u8>, end: int, off: int) -> Option<Seq<MadtRecord>>
    decreases if off < end { end - off } else { 0 },
{
    if off >= end {
        Some(Seq::empty())
    } else if off < 0 || off + 1 >= table.len() || table[off + 1] == 0 {
        None
    } else {
        match madt_walk(table, end, off + table[off + 1]) {
            Some(rest) => Some(seq![record_at(table, off)] + rest),
            None => None,
        }
    }
}

/// The records of the MADT whose bytes are `table` and whose header gives
/// `length` bytes, in order.
pub fn madt_entries(table: &[u8], length: u32) -> (r: Vec<MadtRecord>)
    requires
        madt_walk(table@, length as int, MADT_HEADER_SIZE as int) is Some,
    ensures
        r@ == madt_walk(table@, length as int, MADT_HEADER_SIZE as int)->Some_0,
{
    let mut out: Vec<MadtRecord> = Vec::new();
    let mut current: u64 = MADT_HEADER_SIZE as u64;
    let end: u64 = length as u64;
    while current < end
        invariant
            end == length,
            current <= u32::MAX + 0x100,
            madt_walk(table@, end as int, current as int) is Some,
            madt_walk(table@, end as int, MADT_HEADER_SIZE as int)->Some_0 == out@ + madt_walk(
                table@,
                end as int,
                current as int,
            )->Some_0,
        decreases if current < end { end - current } else { 0 },
    {
        let entry_type = table[current as usize];
        let record_length = table[(current + 1) as usize];
        let rec = MadtRecord { offset: current, entry_type, record_length, kind: classify(entry_type) };
        proof {
            assert(record_length > 0);
            let rest = madt_walk(table@, end as int, current + record_length);
            assert(madt_walk(table@, end as int, current as int)->Some_0 == seq![rec] + rest->Some_0);
            assert(out@.push(rec) + rest->Some_0 =~= out@ + (seq![rec] + rest->Some_0));
        }
        out.push(rec);
        current = current + record_length as u64;
    }
    proof {
        assert(out@ + Seq::<MadtRecord>::empty() =~= out@);
    }
    out
}

/// Whether walking the records of the MADT whose bytes are `table` and whose
/// header gives `length` bytes ends: every record it reaches has its two
/// leading bytes in `table` and a non-zero length.
pub fn madt_walk_fits(table: &[u8], length: u32) -> (r: bool)
    ensures
        r == madt_walk(table@, length as int, MADT_HEADER_SIZE as int) is Some,
{
    let mut current: u64 = MADT_HEADER_SIZE as u64;
    let end: u64 = length as u64;
    while current < end
        invariant
            end == length,
            current <= u32::MAX + 0x100,
            (madt_walk(table@, end as int, current as int) is Some) == (madt_walk(
                table@,
                end as int,
                MADT_HEADER_SIZE as int,
            ) is Some),
        decreases if current < end { end - current } else { 0 },
    {
        if current + 1 >= table.len() as u64 {
            return false;
        }
        let record_length = table[(current + 1) as usize];
        if record_length == 0 {
            return false;
        }
        current = current + record_length as u64;
    }
    true
}

/// Timer ticks counted from the initial count `0xFFFFFFFF` down to `current`.
pub fn apic_timer_ticks(current: u32) -> (r: u32)
    ensures
        r == 0xFFFF_FFFF - current,
{
    0xFFFF_FFFF - current
}

/// The timer vector register value written back: only bit 17 of the value read is kept.
pub fn apic_timer_lvt(lvt: u32) -> (r: u32)
    ensures
        r == lvt & 0x2_0000,
{
    lvt & 0x2_0000
}

} // verus!
