//! Round-robin scheduler over a ring of thread control blocks.
//!
//! The ring is kept in the order threads were added: the thread after the
//! last one is the first.
use vstd::prelude::*;
use crate::thread::{ThreadControlBlock, ThreadStatus};

verus! {

/// The general purpose registers saved for a thread.
#[derive(Debug, Clone, Copy)]
pub struct Registers {
    pub rax: u64,
    pub rbx: u64,
    pub rcx: u64,
    pub rdx: u64,
    pub rsi: u64,
    pub rdi: u64,
    pub rsp: u64,
    pub rbp: u64,
    pub rip: u64,
    pub r8: u64,
    pub r9: u64,
    pub r10: u64,
    pub r11: u64,
    pub r12: u64,
    pub r13: u64,
    pub r14: u64,
    pub r15: u64,
}

impl Registers {
    /// All registers zero.
    pub open spec fn zero_spec() -> Registers {
        Registers {
            rax: 0,
            rbx: 0,
            rcx: 0,
            rdx: 0,
            rsi: 0,
            rdi: 0,
            rsp: 0,
            rbp: 0,
            rip: 0,
            r8: 0,
            r9: 0,
            r10: 0,
            r11: 0,
            r12: 0,
            r13: 0,
            r14: 0,
            r15: 0,
        }
    }

    /// All registers zero.
    pub fn zeroed() -> (r: Self)
        ensures
            r == Self::zero_spec(),
    {
        Registers {
            rax: 0,
            rbx: 0,
            rcx: 0,
            rdx: 0,
            rsi: 0,
            rdi: 0,
            rsp: 0,
            rbp: 0,
            rip: 0,
            r8: 0,
            r9: 0,
            r10: 0,
            r11: 0,
            r12: 0,
            r13: 0,
            r14: 0,
            r15: 0,
        }
    }
}

impl Default for Registers {
    fn default() -> (r: Self)
        ensures
            r == Self::zero_spec(),
    {
        Self::zeroed()
    }
}

/// The control block with its status replaced.
pub open spec fn with_status(t: ThreadControlBlock, s: ThreadStatus) -> ThreadControlBlock {
    ThreadControlBlock { status: s, ..t }
}

/// The position after `c` in a ring of `len` threads.
pub open spec fn next_in_ring(c: usize, len: nat) -> usize {
    if c + 1 < len { (c + 1) as usize } else { 0 }
}

/// One scheduling step on the ring `threads` with current thread `current`:
/// the new ring, the new current thread, and the switch to perform (from, to).
/// An empty ring is left alone. With no current thread the first one is made
/// running, with nothing to switch from. Otherwise the current thread becomes
/// ready, the one after it in the ring becomes running and current, and the
/// switch goes from the first to the second.
pub open spec fn schedule_result(threads: Seq<ThreadControlBlock>, current: Option<usize>) -> (
    Seq<ThreadControlBlock>,
    Option<usize>,
    Option<(usize, usize)>,
) {
    if threads.len() == 0 {
        (threads, current, None)
    } else {
        match current {
            None => (threads.update(0, with_status(threads[0], ThreadStatus::Running)), Some(0usize), None),
            Some(c) => {
                let n = next_in_ring(c, threads.len());
                let t1 = threads.update(c as int, with_status(threads[c as int], ThreadStatus::Ready));
                (t1.update(n as int, with_status(t1[n as int], ThreadStatus::Running)), Some(n), Some((c, n)))
            },
        }
    }
}

/// `true` when exactly the current thread (if any) is running.
pub open spec fn only_current_runs(threads: Seq<ThreadControlBlock>, current: Option<usize>) -> bool {
    forall|k: int| 0 <= k < threads.len() ==> ((#[trigger] threads[k]).status == ThreadStatus::Running <==> (current is Some
        && current->Some_0 == k))
}

/// The scheduler: the ring of thread control blocks and the current thread.
pub struct Scheduler {
    threads: Vec<ThreadControlBlock>,
    current: Option<usize>,
}

impl Scheduler {
    /// The ring, in the order threads were added.
    pub closed spec fn ring(&self) -> Seq<ThreadControlBlock> {
        self.threads@
    }

    /// Position of the current thread in the ring.
    pub closed spec fn current_index(&self) -> Option<usize> {
        self.current
    }

    /// The scheduler's invariant: the current thread is in the ring.
    pub open spec fn wf(&self) -> bool {
        self.current_index() matches Some(c) ==> c < self.ring().len()
    }

    /// A scheduler with no threads and no current thread.
    pub fn new() -> (r: Self)
        ensures
            r.ring() == Seq::<ThreadControlBlock>::empty(),
            r.current_index() is None,
            r.wf(),
    {
        Self { threads: Vec::new(), current: None }
    }

    /// The ring, in the order threads were added.
    pub fn threads(&self) -> (r: Vec<ThreadControlBlock>)
        ensures
            r@ == self.ring(),
    {
        self.threads.clone()
    }

    /// Position of the current thread in the ring.
    pub fn current(&self) -> (r: Option<usize>)
        ensures
            r == self.current_index(),
    {
        self.current
    }

    /// Adds a thread at the end of the ring, right before the first one.
    pub fn add_process(&mut self, tcb: ThreadControlBlock)
        requires
            old(self).wf(),
        ensures
            final(self).wf(),
            final(self).ring() == old(self).ring().push(tcb),
            final(self).current_index() == old(self).current_index(),
            only_current_runs(old(self).ring(), old(self).current_index()) && tcb.status != ThreadStatus::Running
                ==> only_current_runs(final(self).ring(), final(self).current_index()),
    {
        self.threads.push(tcb);
        proof {
            if only_current_runs(old(self).ring(), old(self).current_index()) && tcb.status != ThreadStatus::Running {
                assert forall|k: int| 0 <= k < self.ring().len() implies ((#[trigger] self.ring()[k]).status
                    == ThreadStatus::Running <==> (self.current_index() is Some && self.current_index()->Some_0 == k)) by {
                    if k < old(self).ring().len() {
                        assert(self.ring()[k] == old(self).ring()[k]);
                        assert(old(self).ring()[k].status == ThreadStatus::Running <==> (old(self).current_index() is Some && old(self).current_index()->Some_0 == k));
                    } else {
                        assert(self.ring()[k] == tcb);
                        assert(self.current_index() matches Some(c) ==> c < k);
                    }
                }
            }
        }
    }

    /// One scheduling step (see [`schedule_result`]); returns the context
    /// switch to perform, as positions in the ring (from, to).
    pub fn schedule(&mut self) -> (r: Option<(usize, usize)>)
        requires
            old(self).wf(),
        ensures
            final(self).wf(),
            (final(self).ring(), final(self).current_index(), r) == schedule_result(
                old(self).ring(),
                old(self).current_index(),
            ),
    {
        let len = self.threads.len();
        if len == 0 {
            return None;
        }
        match self.current {
            None => {
                let mut first = self.threads[0];
                first.status = ThreadStatus::Running;
                self.threads.set(0, first);
                self.current = Some(0);
                None
            },
            Some(c) => {
                let n = if c + 1 == len { 0 } else { c + 1 };
                let mut cur = self.threads[c];
                cur.status = ThreadStatus::Ready;
                self.threads.set(c, cur);
                let mut next = self.threads[n];
                next.status = ThreadStatus::Running;
                self.threads.set(n, next);
                self.current = Some(n);
                Some((c, n))
            },
        }
    }
}

/// Nothing to set up for multitasking.
pub fn init_multitasking() {
}

/// Each step moves the current thread one place along the ring.
pub proof fn law_round_robin(threads: Seq<ThreadControlBlock>, c: usize)
    requires
        c < threads.len() <= usize::MAX,
    ensures
        schedule_result(threads, Some(c)).1 matches Some(n) && n == (c + 1) % (threads.len() as int),
        schedule_result(threads, Some(c)).0.len() == threads.len(),
{
    if c + 1 < threads.len() {
        vstd::arithmetic::div_mod::lemma_small_mod((c + 1) as nat, threads.len());
    } else {
        vstd::arithmetic::div_mod::lemma_mod_self_0(threads.len() as int);
    }
}

/// Scheduling keeps exactly the current thread running.
pub proof fn law_only_current_runs(threads: Seq<ThreadControlBlock>, current: Option<usize>)
    requires
        threads.len() <= usize::MAX,
        current matches Some(c) ==> c < threads.len(),
        only_current_runs(threads, current),
    ensures
        only_current_runs(schedule_result(threads, current).0, schedule_result(threads, current).1),
{
    let r = schedule_result(threads, current);
    if threads.len() > 0 {
        match current {
            None => {
                assert forall|k: int| 0 <= k < r.0.len() implies ((#[trigger] r.0[k]).status
                    == ThreadStatus::Running <==> (r.1 is Some && r.1->Some_0 == k)) by {
                    if k != 0 {
                        assert(r.0[k] == threads[k]);
                    }
                }
            },
            Some(c) => {
                let n = next_in_ring(c, threads.len());
                assert forall|k: int| 0 <= k < r.0.len() implies ((#[trigger] r.0[k]).status
                    == ThreadStatus::Running <==> (r.1 is Some && r.1->Some_0 == k)) by {
                    if k != c && k != n {
                        assert(r.0[k] == threads[k]);
                    }
                }
            },
        }
    }
}

/// After `k` steps from thread `c` the current thread is `(c + k) mod n`.
pub proof fn law_full_turn(threads: Seq<ThreadControlBlock>, c: usize, k: nat)
    requires
        c < threads.len() <= usize::MAX,
    ensures
        schedule_steps(threads, Some(c), k).1 matches Some(m) && m == (c + k) % (threads.len() as int),
        schedule_steps(threads, Some(c), k).0.len() == threads.len(),
    decreases k,
{
    let len = threads.len() as int;
    if k == 0 {
        vstd::arithmetic::div_mod::lemma_small_mod(c as nat, threads.len());
    } else {
        law_full_turn(threads, c, (k - 1) as nat);
        let prev = schedule_steps(threads, Some(c), (k - 1) as nat);
        let p = prev.1->Some_0;
        law_round_robin(prev.0, p);
        vstd::arithmetic::div_mod::lemma_add_mod_noop_right(1, c + k - 1, len);
        assert((p + 1) % len == (c + k) % len);
    }
}

/// The ring and current thread after `k` scheduling steps.
pub open spec fn schedule_steps(threads: Seq<ThreadControlBlock>, current: Option<usize>, k: nat) -> (
    Seq<ThreadControlBlock>,
    Option<usize>,
)
    decreases k,
{
    if k == 0 {
        (threads, current)
    } else {
        let prev = schedule_steps(threads, current, (k - 1) as nat);
        let r = schedule_result(prev.0, prev.1);
        (r.0, r.1)
    }
}

} // verus!
