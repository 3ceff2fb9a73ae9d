//! Processes and their control blocks.
use vstd::prelude::*;
use crate::scheduler::Registers;

verus! {

/// A process in the list of processes; `next` is the address of the next
/// one, 0 for none.
#[derive(Debug, Clone, Copy)]
pub struct Process {
    pub next: u64,
}

/// What the kernel keeps of a process.
#[derive(Debug, Clone, Copy)]
pub struct ProcessControlBlock {
    pub id: u64,
    pub rsp: u64,
    pub cr3: u64,
    pub next: u64,
    pub state: u8,
    pub registers: Registers,
    pub time_used: u64,
}

impl ProcessControlBlock {
    /// The control block of process `id` whose stack is the page at
    /// `stack_page`: its saved stack pointer is two words below the top of
    /// that page, where [`initial_stack`] puts a null return address and
    /// the entry point.
    pub fn new(id: u64, stack_page: u64) -> (r: Self)
        requires
            stack_page + 4096 <= u64::MAX,
        ensures
            r.id == id,
            r.rsp == 0,
            r.cr3 == 0,
            r.next == 0,
            r.state == 0,
            r.time_used == 0,
            r.registers == (Registers { rsp: (stack_page + 4096 - 16) as u64, ..Registers::zero_spec() }),
    {
        let mut registers = Registers::zeroed();
        registers.rsp = stack_page + 4096 - 16;
        Self { id, rsp: 0, cr3: 0, next: 0, state: 0, registers, time_used: 0 }
    }
}

/// The two words written at the top of a new process's stack page, as
/// (address, value): a null word in the last slot, the entry point below it.
pub fn initial_stack(stack_page: u64, entry: u64) -> (r: Vec<(u64, u64)>)
    requires
        stack_page + 4096 <= u64::MAX,
    ensures
        r@ == seq![((stack_page + 4096 - 8) as u64, 0u64), ((stack_page + 4096 - 16) as u64, entry)],
{
    let top = stack_page + 4096;
    let mut v: Vec<(u64, u64)> = Vec::new();
    v.push((top - 8, 0));
    v.push((top - 16, entry));
    proof {
        assert(v@ =~= seq![((stack_page + 4096 - 8) as u64, 0u64), ((stack_page + 4096 - 16) as u64, entry)]);
    }
    v
}

} // verus!
