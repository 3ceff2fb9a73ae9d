use catmeow_os::process::{initial_stack, Process, ProcessControlBlock};
use catmeow_os::scheduler::{init_multitasking, Registers, Scheduler};
use catmeow_os::thread::{create_thread, thread_initial_stack, Thread, ThreadControlBlock, ThreadStatus};

fn running(s: &Scheduler) -> Vec<usize> {
    s.threads().iter().enumerate().filter(|(_, t)| t.status == ThreadStatus::Running).map(|(i, _)| i).collect()
}

#[test]
fn empty_scheduler_does_nothing() {
    let mut s = Scheduler::new();
    assert_eq!(s.schedule(), None);
    assert_eq!(s.current(), None);
    init_multitasking();
}

#[test]
fn round_robin_over_ring() {
    let mut s = Scheduler::new();
    for i in 0..3u64 {
        s.add_process(ThreadControlBlock::new(i, 0x10000 * (i + 1), 0x1000));
    }
    assert!(running(&s).is_empty());
    assert_eq!(s.schedule(), None);
    assert_eq!(s.current(), Some(0));
    assert_eq!(running(&s), vec![0]);
    assert_eq!(s.schedule(), Some((0, 1)));
    assert_eq!(running(&s), vec![1]);
    assert_eq!(s.schedule(), Some((1, 2)));
    assert_eq!(s.schedule(), Some((2, 0)));
    assert_eq!(s.current(), Some(0));
    assert_eq!(running(&s), vec![0]);
    assert_eq!(s.threads()[1].status, ThreadStatus::Ready);
}

#[test]
fn single_thread_switches_to_itself() {
    let mut s = Scheduler::new();
    s.add_process(ThreadControlBlock::new(7, 0x8000, 0));
    s.schedule();
    assert_eq!(s.schedule(), Some((0, 0)));
    assert_eq!(running(&s), vec![0]);
}

#[test]
fn control_blocks() {
    let t = ThreadControlBlock::new(5, 0x1000, 0xABC);
    assert_eq!(t.id, 5);
    assert_eq!(t.registers.rsp, 0x2000);
    assert_eq!(t.registers.rax, 0);
    assert_eq!(t.cr3, 0xABC);
    assert_eq!(t.status, ThreadStatus::Ready);
    let d = ThreadControlBlock::default();
    assert_eq!(d.status, ThreadStatus::New);
    assert_eq!(ThreadStatus::default(), ThreadStatus::New);
    let r = Registers::default();
    assert_eq!(r.r15, 0);
    let th = Thread::new(9);
    assert_eq!((th.id, th.pc, th.pcb, th.registers.rsp), (9, 0, 0, 0));
    create_thread();
}

#[test]
fn process_blocks() {
    let p = ProcessControlBlock::new(3, 0x5000);
    assert_eq!(p.registers.rsp, 0x6000 - 16);
    assert_eq!((p.id, p.rsp, p.cr3, p.next, p.state, p.time_used), (3, 0, 0, 0, 0, 0));
    assert_eq!(initial_stack(0x5000, 0xfeed), vec![(0x5ff8, 0), (0x5ff0, 0xfeed)]);
    let q = Process { next: 0 };
    assert_eq!(q.next, 0);
}

#[test]
fn thread_stack_holds_entry_at_top() {
    let tcb = ThreadControlBlock::new(3, 0x5000, 0x9000);
    assert_eq!(tcb.registers.rsp, 0x6000);
    assert_eq!(thread_initial_stack(0x5000, 0xdead), (0x6000, 0xdead));
}
