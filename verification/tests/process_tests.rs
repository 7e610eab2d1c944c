use rvos::allocator::BumpAllocator;
use rvos::constants::USER_BASE;
use rvos::memory::Vaddr;
use rvos::process::{Pid, Process, Scheduler};

#[test]
fn pid_basics() {
    assert!(Pid::idle().is_idle());
    for k in 1..8 {
        let pid = Pid::new(k);
        assert_eq!(pid.as_usize(), k);
        assert!(!pid.is_idle());
    }
}

#[test]
fn process_record() {
    let mut p = Process::uninitialized();
    assert!(p.pid().is_idle());
    assert!(p.is_idle_process());
    assert!(p.page_table.is_none());
    *p.get_mut_sp() = 0x8000_2000;
    assert_eq!(p.sp, 0x8000_2000);
}

#[test]
fn fresh_scheduler_runs_idle() {
    let s = Scheduler::new();
    assert!(s.current.is_idle());
    assert!(s.get(Pid::idle()).is_some());
    assert!(s.get(Pid::new(1)).is_none());
    assert_eq!(s.running_processes().len(), 1);
}

fn scheduler_with_processes(n: usize) -> Scheduler {
    let mut s = Scheduler::new();
    let mut allocator = BumpAllocator::new();
    allocator.init(0x8100_0000, 0x9000_0000);
    for _ in 0..n {
        s.create_process(&mut allocator, 4097, 0x8000_0000, 0x8000_2000);
    }
    s
}

#[test]
fn create_process_assigns_slots_in_order() {
    let s = scheduler_with_processes(2);
    let p1 = s.get(Pid::new(1)).expect("first created process");
    assert_eq!(p1.pid().as_usize(), 1);
    let p2 = s.get(Pid::new(2)).expect("second created process");
    assert_eq!(p2.pid().as_usize(), 2);
    assert_eq!(s.running_processes().len(), 3);
}

#[test]
fn create_process_maps_kernel_and_user_image() {
    let s = scheduler_with_processes(1);
    let p = s.get(Pid::new(1)).unwrap();
    let pt = p.page_table.as_ref().unwrap();
    // kernel pages are identity-mapped without the U bit
    let pte = pt.lookup_pte(Vaddr(0x8000_1000)).expect("kernel page mapped");
    assert_eq!(pte.into_paddr().0, 0x8000_1000);
    assert!(pte.read() && pte.write() && pte.x() && !pte.u());
    // the 4097-byte image takes two user pages, mapped with the U bit
    let u0 = pt.lookup_pte(Vaddr(USER_BASE)).expect("first user page mapped");
    assert!(u0.u() && u0.read() && u0.write() && u0.x());
    assert!(pt.lookup_pte(Vaddr(USER_BASE + 4096)).is_some());
    assert!(pt.lookup_pte(Vaddr(USER_BASE + 2 * 4096)).is_none());
    // the two user pages sit on distinct frames
    let u1 = pt.lookup_pte(Vaddr(USER_BASE + 4096)).unwrap();
    assert_ne!(u0.into_paddr().0, u1.into_paddr().0);
}

#[test]
fn yield_visits_processes_round_robin() {
    // with two non-idle processes, repeated yields alternate between them
    // and never come back to idle
    let mut s = scheduler_with_processes(2);
    let mut seen = Vec::new();
    for _ in 0..6 {
        let d = s.do_yield().expect("a switch must happen");
        assert!(!d.next.is_idle());
        seen.push(d.next.as_usize());
    }
    assert_eq!(seen, vec![1, 2, 1, 2, 1, 2]);
}

#[test]
fn yield_to_self_does_nothing() {
    let mut s = scheduler_with_processes(1);
    let d = s.do_yield().expect("switch into the only process");
    assert_eq!(d.next.as_usize(), 1);
    assert_eq!(d.prev.as_usize(), 0);
    // the only runnable process is already running: nothing to do
    assert!(s.do_yield().is_none());
}

#[test]
fn satp_composition() {
    // for a root frame f the SATP value is (8 << 60) | (f >> 12)
    let mut s = scheduler_with_processes(1);
    let root = {
        let p = s.get(Pid::new(1)).unwrap();
        p.page_table.as_ref().unwrap().base
    };
    let d = s.do_yield().expect("switch");
    assert_eq!(d.satp, (8u64 << 60) | (root >> 12));
}

#[test]
fn table_fills_slots_one_to_seven() {
    let s = scheduler_with_processes(7);
    assert_eq!(s.running_processes().len(), 8);
    for k in 1..8 {
        assert_eq!(s.get(Pid::new(k)).unwrap().pid().as_usize(), k);
    }
}

#[test]
fn yield_skips_empty_slots() {
    // with processes in slots 1..=3 and slot 2 the current one, the next
    // pick wraps past the empty slots and idle back to slot 3
    let mut s = scheduler_with_processes(3);
    while s.current.as_usize() != 2 {
        s.do_yield();
    }
    let d = s.do_yield().expect("switch");
    assert_eq!(d.next.as_usize(), 3);
    let d = s.do_yield().expect("switch");
    assert_eq!(d.next.as_usize(), 1);
}

#[test]
fn get_mut_reaches_the_slot() {
    let mut s = scheduler_with_processes(1);
    {
        let p = s.get_mut(Pid::new(1)).expect("created");
        *p.get_mut_sp() = 0xABCD;
    }
    assert_eq!(s.get(Pid::new(1)).unwrap().sp, 0xABCD);
    assert!(s.get_mut(Pid::new(7)).is_none());
}
