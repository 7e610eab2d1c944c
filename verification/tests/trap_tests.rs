use rvos::common::Syscall;
use rvos::sbi::{getchar_outcome, SbiReturn};
use rvos::trap::{
    advance_sepc, dispatch_trap, set_syscall_return, syscall_action, SyscallAction, TrapDispatch,
    TrapFrame,
};

fn frame_with(x13: u64, x10: u64) -> TrapFrame {
    TrapFrame {
        x1: 0,
        x2: 0,
        x3: 0,
        x4: 0,
        x5: 0,
        x6: 0,
        x7: 0,
        x8: 0,
        x9: 0,
        x10,
        x11: 0,
        x12: 0,
        x13,
        x14: 0,
        x15: 0,
        x16: 0,
        x17: 0,
        x18: 0,
        x19: 0,
        x20: 0,
        x21: 0,
        x22: 0,
        x23: 0,
        x24: 0,
        x25: 0,
        x26: 0,
        x27: 0,
        x28: 0,
        x29: 0,
        x30: 0,
        x31: 0,
        sp: 0,
    }
}

#[test]
fn syscall_numbers() {
    assert_eq!(Syscall::PUTCHAR.as_number(), 1);
    assert_eq!(Syscall::GETCHAR.as_number(), 2);
    assert_eq!(Syscall::EXIT.as_number(), 3);
    assert_eq!(Syscall::from_number(2), Ok(Syscall::GETCHAR));
    assert_eq!(Syscall::from_number(9), Err(9));
}

#[test]
fn ecall_is_the_syscall_cause() {
    assert!(matches!(dispatch_trap(8), TrapDispatch::Syscall));
}

#[test]
fn faults_are_fatal_with_their_names() {
    match dispatch_trap(2) {
        TrapDispatch::Fatal(m) => assert_eq!(m, "illegal instruction"),
        _ => panic!("cause 2 must be fatal"),
    }
    match dispatch_trap(13) {
        TrapDispatch::Fatal(m) => assert_eq!(m, "load page fault"),
        _ => panic!("cause 13 must be fatal"),
    }
    match dispatch_trap(0x8000_0000_0000_0005) {
        TrapDispatch::Fatal(m) => assert_eq!(m, "supervisor timer interrupt"),
        _ => panic!("timer interrupt must be fatal"),
    }
}

#[test]
fn unrecognized_causes() {
    assert!(matches!(dispatch_trap(14), TrapDispatch::Unknown));
    assert!(matches!(dispatch_trap(0x8000_0000_0000_00ff), TrapDispatch::Unknown));
}

#[test]
fn putchar_syscall_carries_the_byte() {
    // user puts 1 in a3 and 0x41 in a0: the kernel emits 'A'
    let frame = frame_with(1, 0x41);
    assert_eq!(syscall_action(&frame), Ok(SyscallAction::PutChar(0x41)));
}

#[test]
fn getchar_and_exit_syscalls() {
    assert_eq!(syscall_action(&frame_with(2, 0)), Ok(SyscallAction::GetChar));
    assert_eq!(syscall_action(&frame_with(3, 0)), Ok(SyscallAction::Exit));
}

#[test]
fn unknown_syscall_number_comes_back() {
    assert_eq!(syscall_action(&frame_with(17, 0)), Err(17));
}

#[test]
fn sepc_advances_past_the_ecall() {
    assert_eq!(advance_sepc(0x0100_0004), 0x0100_0008);
}

#[test]
fn syscall_return_lands_in_a0() {
    let mut frame = frame_with(2, 0);
    set_syscall_return(&mut frame, 0x78);
    assert_eq!(frame.x10, 0x78);
    assert_eq!(frame.x13, 2);
}

#[test]
fn getchar_decoding() {
    // a pending byte comes back non-negative in a0; no byte is negative
    assert_eq!(getchar_outcome(SbiReturn { error: 0x78, value: 0 }), Some(0x78));
    assert_eq!(getchar_outcome(SbiReturn { error: (-1i64) as u64, value: 0 }), None);
}
