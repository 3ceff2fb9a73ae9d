//! Threads and their control blocks.
use vstd::prelude::*;
use crate::scheduler::Registers;

verus! {

/// Size in bytes of a thread's stack area (two pages).
pub const THREAD_SIZE: usize = 8192;

/// Where a thread stands.
#[derive(Debug, PartialEq, Eq, Structural, Clone, Copy)]
pub enum ThreadStatus {
    New,
    Idle,
    Ready,
    Running,
    Blocked,
}

impl Default for ThreadStatus {
    fn default() -> (r: Self)
        ensures
            r == ThreadStatus::New,
    {
        ThreadStatus::New
    }
}

/// A thread: its id, saved registers, program counter and the process
/// control block it belongs to (by address, 0 for none).
#[derive(Debug, Clone, Copy)]
pub struct Thread {
    pub id: u64,
    pub registers: Registers,
    pub pc: u64,
    pub pcb: u64,
}

impl Thread {
    /// A thread with id `id`; every other field zero.
    pub fn new(id: u64) -> (r: Self)
        ensures
            r.id == id,
            r.registers == Registers::zero_spec(),
            r.pc == 0,
            r.pcb == 0,
    {
        Self { id, registers: Registers::zeroed(), pc: 0, pcb: 0 }
    }
}

/// Creates thread 0 and drops it.
pub fn create_thread() {
    let _thread = Thread::new(0);
}

/// A thread control block: what the scheduler keeps of a thread.
#[derive(Debug, Clone, Copy)]
pub struct ThreadControlBlock {
    pub id: u64,
    pub registers: Registers,
    pub cr3: u64,
    pub esp0: u64,
    pub rip: u64,
    pub status: ThreadStatus,
}

impl Default for ThreadControlBlock {
    fn default() -> (r: Self)
        ensures
            r.id == 0,
            r.registers == Registers::zero_spec(),
            r.cr3 == 0,
            r.esp0 == 0,
            r.rip == 0,
            r.status == ThreadStatus::New,
    {
        Self {
            id: 0,
            registers: Registers::zeroed(),
            cr3: 0,
            esp0: 0,
            rip: 0,
            status: ThreadStatus::New,
        }
    }
}

impl ThreadControlBlock {
    /// The control block of thread `id` whose stack is the page at
    /// `stack_page`, running in the address space `cr3`: its stack pointer
    /// is the top of that page and it is ready to run.
    pub fn new(id: u64, stack_page: u64, cr3: u64) -> (r: Self)
        requires
            stack_page + 4096 <= u64::MAX,
        ensures
            r.id == id,
            r.registers == (Registers { rsp: (stack_page + 4096) as u64, ..Registers::zero_spec() }),
            r.cr3 == cr3,
            r.esp0 == 0,
            r.rip == 0,
            r.status == ThreadStatus::Ready,
    {
        let mut tcb = Self::default();
        tcb.id = id;
        tcb.registers.rsp = stack_page + 4096;
        tcb.cr3 = cr3;
        tcb.status = ThreadStatus::Ready;
        tcb
    }
}

/// The word written on a new thread's stack, as (address, value): the entry
/// point, stored at the stack top `stack_page + 4096` that the control
/// block's stack pointer holds.
pub fn thread_initial_stack(stack_page: u64, entry: u64) -> (r: (u64, u64))
    requires
        stack_page + 4096 <= u64::MAX,
    ensures
        r == ((stack_page + 4096) as u64, entry),
{
    (stack_page + 4096, entry)
}

} // verus!
