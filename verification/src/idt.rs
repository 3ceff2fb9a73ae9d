//! Interrupt descriptor table: gate descriptor encoding.
use vstd::prelude::*;

verus! {

/// Number of gates in the table.
pub const IDT_MAX_DESCRIPTORS: usize = 256;

/// Selector of the kernel code segment.
pub const GDT_OFFSET_KERNEL_CODE: u16 = 0x08;

/// Gate attributes: present, privilege 0, 64-bit interrupt gate.
pub const INTERRUPT_GATE: u8 = 0x8e;

/// Vector the timer interrupt arrives on.
pub const TIMER_VECTOR: u8 = 0x20;

/// Number of processor exceptions given a handler of their own.
pub const EXCEPTION_COUNT: usize = 24;

/// The register that tells the processor where the table is.
#[derive(Debug, Clone, Copy)]
pub struct IDTR {
    pub limit: u16,
    pub base: u64,
}

impl IDTR {
    /// A register with limit and base zero.
    pub fn new() -> (r: Self)
        ensures
            r.limit == 0,
            r.base == 0,
    {
        Self { limit: 0, base: 0 }
    }
}

/// One gate descriptor.
#[derive(Debug, Clone, Copy, PartialEq, Eq, Structural)]
pub struct IDTEntry {
    pub isr_low: u16,
    pub kernel_cs: u16,
    pub ist: u8,
    pub attributes: u8,
    pub isr_mid: u16,
    pub isr_high: u32,
    pub reserved: u32,
}

/// The all-zero gate.
pub open spec fn empty_gate() -> IDTEntry {
    IDTEntry { isr_low: 0, kernel_cs: 0, ist: 0, attributes: 0, isr_mid: 0, isr_high: 0, reserved: 0 }
}

/// Gate for the routine at `isr` with attribute byte `flags`.
pub open spec fn gate(isr: u64, flags: u8) -> IDTEntry {
    IDTEntry {
        isr_low: (isr & 0xffff) as u16,
        kernel_cs: GDT_OFFSET_KERNEL_CODE,
        ist: 0,
        attributes: flags,
        isr_mid: ((isr >> 16) & 0xffff) as u16,
        isr_high: ((isr >> 32) & 0xffffffff) as u32,
        reserved: 0,
    }
}

/// The handler address a gate holds, put back together from its three parts.
pub open spec fn gate_address(g: IDTEntry) -> u64 {
    (g.isr_low as u64) | ((g.isr_mid as u64) << 16) | ((g.isr_high as u64) << 32)
}

/// The exceptions with a handler of their own, by position in the handler list.
pub open spec fn exception_vector(i: int) -> int {
    if i <= 14 {
        i
    } else if i <= 20 {
        i + 1
    } else {
        i + 7
    }
}

impl IDTEntry {
    /// The all-zero gate.
    pub fn new() -> (r: Self)
        ensures
            r == empty_gate(),
    {
        Self { isr_low: 0, kernel_cs: 0, ist: 0, attributes: 0, isr_mid: 0, isr_high: 0, reserved: 0 }
    }
}

/// A gate holds the whole handler address, keeps the attribute byte it was
/// given (so interrupt, trap and user-callable gates all come out as asked),
/// and enters the handler through the kernel code segment on the current stack.
pub proof fn law_gate_address(isr: u64, flags: u8)
    ensures
        gate_address(gate(isr, flags)) == isr,
        gate(isr, flags).attributes == flags,
        gate(isr, flags).kernel_cs == 0x08,
        gate(isr, flags).ist == 0,
        gate(isr, flags).reserved == 0,
{
    assert(((isr & 0xffff) as u16 as u64) | ((((isr >> 16) & 0xffff) as u16 as u64) << 16) | ((((isr >> 32)
        & 0xffffffff) as u32 as u64) << 32) == isr) by (bit_vector);
}

/// The interrupt descriptor table.
pub struct Idt {
    entries: Vec<IDTEntry>,
}

impl View for Idt {
    type V = Seq<IDTEntry>;

    closed spec fn view(&self) -> Seq<IDTEntry> {
        self.entries@
    }
}

impl Idt {
    /// A table of 256 empty gates.
    pub fn new() -> (r: Self)
        ensures
            r@ == Seq::new(256, |i: int| empty_gate()),
    {
        let mut entries: Vec<IDTEntry> = Vec::new();
        let mut i: usize = 0;
        while i < IDT_MAX_DESCRIPTORS
            invariant
                i <= 256,
                entries@ == Seq::new(i as nat, |j: int| empty_gate()),
            decreases 256 - i,
        {
            entries.push(IDTEntry::new());
            i = i + 1;
            proof {
                assert(entries@ =~= Seq::new(i as nat, |j: int| empty_gate()));
            }
        }
        Self { entries }
    }

    /// The gates.
    pub fn entries(&self) -> (r: Vec<IDTEntry>)
        ensures
            r@ == self@,
    {
        self.entries.clone()
    }

    /// Points gate `vector` at the handler at `isr`, with attributes `flags`.
    pub fn idt_set_descriptor(&mut self, vector: u8, isr: u64, flags: u8)
        requires
            old(self)@.len() == 256,
        ensures
            final(self)@ == old(self)@.update(vector as int, gate(isr, flags)),
    {
        let descriptor = IDTEntry {
            isr_low: (isr & 0xffff) as u16,
            kernel_cs: GDT_OFFSET_KERNEL_CODE,
            ist: 0,
            attributes: flags,
            isr_mid: ((isr >> 16) & 0xffff) as u16,
            isr_high: ((isr >> 32) & 0xffffffff) as u32,
            reserved: 0,
        };
        self.entries.set(vector as usize, descriptor);
    }

    /// Fills the table: every gate goes to `default_isr`, the timer vector to
    /// `timer_isr`, and the exceptions 0..=14, 16..=21 and 28..=30 to their
    /// handlers in `exception_isrs`, in that order. All gates are interrupt
    /// gates.
    pub fn init_idt(&mut self, default_isr: u64, timer_isr: u64, exception_isrs: &[u64])
        requires
            old(self)@.len() == 256,
            exception_isrs@.len() == EXCEPTION_COUNT,
        ensures
            final(self)@.len() == 256,
            forall|v: int|
                0 <= v < 256 ==> #[trigger] final(self)@[v] == if v == TIMER_VECTOR {
                    gate(timer_isr, INTERRUPT_GATE)
                } else if exists|i: int| 0 <= i < EXCEPTION_COUNT && exception_vector(i) == v {
                    gate(exception_isrs@[choose|i: int| 0 <= i < EXCEPTION_COUNT && exception_vector(i) == v], INTERRUPT_GATE)
                } else {
                    gate(default_isr, INTERRUPT_GATE)
                },
    {
        let mut v: usize = 0;
        while v < IDT_MAX_DESCRIPTORS
            invariant
                self@.len() == 256,
                v <= 256,
                forall|w: int| 0 <= w < v ==> #[trigger] self@[w] == gate(default_isr, INTERRUPT_GATE),
            decreases 256 - v,
        {
            self.idt_set_descriptor(v as u8, default_isr, INTERRUPT_GATE);
            v = v + 1;
        }
        self.idt_set_descriptor(TIMER_VECTOR, timer_isr, INTERRUPT_GATE);
        let mut i: usize = 0;
        while i < EXCEPTION_COUNT
            invariant
                self@.len() == 256,
                i <= EXCEPTION_COUNT,
                exception_isrs@.len() == EXCEPTION_COUNT,
                forall|w: int|
                    0 <= w < 256 ==> #[trigger] self@[w] == if w == TIMER_VECTOR {
                        gate(timer_isr, INTERRUPT_GATE)
                    } else if exists|j: int| 0 <= j < i && exception_vector(j) == w {
                        gate(exception_isrs@[choose|j: int| 0 <= j < i && exception_vector(j) == w], INTERRUPT_GATE)
                    } else {
                        gate(default_isr, INTERRUPT_GATE)
                    },
            decreases EXCEPTION_COUNT - i,
        {
            let vector: u8 = if i <= 14 {
                i as u8
            } else if i <= 20 {
                (i + 1) as u8
            } else {
                (i + 7) as u8
            };
            let ghost prev = self@;
            self.idt_set_descriptor(vector, exception_isrs[i], INTERRUPT_GATE);
            proof {
                assert forall|w: int| 0 <= w < 256 implies #[trigger] self@[w] == if w == TIMER_VECTOR {
                    gate(timer_isr, INTERRUPT_GATE)
                } else if exists|j: int| 0 <= j < i + 1 && exception_vector(j) == w {
                    gate(exception_isrs@[choose|j: int| 0 <= j < i + 1 && exception_vector(j) == w], INTERRUPT_GATE)
                } else {
                    gate(default_isr, INTERRUPT_GATE)
                } by {
                    if w == vector {
                        assert(exception_vector(i as int) == w);
                        let j = choose|j: int| 0 <= j < i + 1 && exception_vector(j) == w;
                        assert(j == i);
                    } else {
                        assert(self@[w] == prev[w]);
                        if exists|j: int| 0 <= j < i + 1 && exception_vector(j) == w {
                            let j = choose|j: int| 0 <= j < i + 1 && exception_vector(j) == w;
                            assert(j != i);
                            assert(exists|j2: int| 0 <= j2 < i && exception_vector(j2) == w);
                            let j2 = choose|j2: int| 0 <= j2 < i && exception_vector(j2) == w;
                            assert(j2 == j);
                        } else {
                            assert(!exists|j2: int| 0 <= j2 < i && exception_vector(j2) == w);
                        }
                    }
                }
            }
            i = i + 1;
        }
        proof {
            assert forall|v: int| 0 <= v < 256 implies #[trigger] self@[v] == if v == TIMER_VECTOR {
                gate(timer_isr, INTERRUPT_GATE)
            } else if exists|i: int| 0 <= i < EXCEPTION_COUNT && exception_vector(i) == v {
                gate(exception_isrs@[choose|i: int| 0 <= i < EXCEPTION_COUNT && exception_vector(i) == v], INTERRUPT_GATE)
            } else {
                gate(default_isr, INTERRUPT_GATE)
            } by {}
        }
    }
}

/// The register value for a table of 256 gates placed at `base`.
pub fn idt_register(base: u64) -> (r: IDTR)
    ensures
        r.limit == IDT_MAX_DESCRIPTORS * 16 - 1,
        r.base == base,
{
    let mut idtr = IDTR::new();
    idtr.base = base;
    idtr.limit = (IDT_MAX_DESCRIPTORS * 16 - 1) as u16;
    idtr
}

} // verus!
