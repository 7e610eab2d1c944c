//! Trap dispatch and the syscall ABI.
//!
//! The assembly entry stub swaps in the kernel stack via `sscratch`, saves
//! the 31 general registers and the user stack pointer into a trap frame,
//! and calls the handler with a pointer to it; on return it restores the
//! frame and executes `sret`. That stub and the CSR reads live outside this
//! crate. What is here is every decision the handler takes: which cause is
//! a syscall, which is fatal, what each syscall number means, and how the
//! frame changes before the return to user mode.

use vstd::prelude::*;

use crate::common::Syscall;

verus! {

/// The registers saved at trap entry: `x1..x31` in index order, and the
/// user stack pointer read from `sscratch` in place of `x2`.
#[derive(Debug, Clone, Copy, PartialEq, Eq, Structural)]
pub struct TrapFrame {
    pub x1: u64,
    pub x2: u64,
    pub x3: u64,
    pub x4: u64,
    pub x5: u64,
    pub x6: u64,
    pub x7: u64,
    pub x8: u64,
    pub x9: u64,
    pub x10: u64,
    pub x11: u64,
    pub x12: u64,
    pub x13: u64,
    pub x14: u64,
    pub x15: u64,
    pub x16: u64,
    pub x17: u64,
    pub x18: u64,
    pub x19: u64,
    pub x20: u64,
    pub x21: u64,
    pub x22: u64,
    pub x23: u64,
    pub x24: u64,
    pub x25: u64,
    pub x26: u64,
    pub x27: u64,
    pub x28: u64,
    pub x29: u64,
    pub x30: u64,
    pub x31: u64,
    /// The user `sp` at the moment of the trap.
    pub sp: u64,
}

/// What the trap handler decides from `scause`.
#[derive(Debug)]
pub enum TrapDispatch {
    /// An environment call from U-mode: run the syscall handler.
    Syscall,
    /// A fault or interrupt without a recovery path; the kernel stops
    /// with this description.
    Fatal(&'static str),
    /// A cause value the kernel does not recognize; also fatal.
    Unknown,
}

/// What a syscall asks the kernel to do.
#[derive(Debug, Clone, Copy, PartialEq, Eq, Structural)]
pub enum SyscallAction {
    /// Emit this byte on the console; 0 comes back in `a0`.
    PutChar(u8),
    /// Wait cooperatively for a console byte; it comes back in `a0`.
    GetChar,
    /// Terminate the caller. No removal path exists, so the kernel stops.
    Exit,
}

/// Classify a trap by its `scause`: cause 8 is the syscall path, every
/// other recognized cause is fatal with its architectural name, and an
/// unrecognized cause is fatal too.
pub fn dispatch_trap(scause: u64) -> (r: TrapDispatch)
    ensures
        (r is Syscall) <==> scause == 8,
        scause == 0 ==> (r matches TrapDispatch::Fatal(m) && m@ == "instr address misalign"@),
        scause == 1 ==> (r matches TrapDispatch::Fatal(m) && m@ == "instruction access fault"@),
        scause == 2 ==> (r matches TrapDispatch::Fatal(m) && m@ == "illegal instruction"@),
        scause == 3 ==> (r matches TrapDispatch::Fatal(m) && m@ == "breakpoint"@),
        scause == 4 ==> (r matches TrapDispatch::Fatal(m) && m@ == "load address misaligned"@),
        scause == 5 ==> (r matches TrapDispatch::Fatal(m) && m@ == "load access fault"@),
        scause == 6 ==> (r matches TrapDispatch::Fatal(m) && m@
            == "store/AMO address misaligned"@),
        scause == 7 ==> (r matches TrapDispatch::Fatal(m) && m@ == "store/AMO access fault"@),
        scause == 9 ==> (r matches TrapDispatch::Fatal(m) && m@
            == "environment call from HS-mode"@),
        scause == 10 ==> (r matches TrapDispatch::Fatal(m) && m@
            == "environment call from VS-mode"@),
        scause == 11 ==> (r matches TrapDispatch::Fatal(m) && m@
            == "environment call from M-mode"@),
        scause == 12 ==> (r matches TrapDispatch::Fatal(m) && m@ == "instruction page fault"@),
        scause == 13 ==> (r matches TrapDispatch::Fatal(m) && m@ == "load page fault"@),
        scause == 15 ==> (r matches TrapDispatch::Fatal(m) && m@ == "store/AMO page fault"@),
        scause == 20 ==> (r matches TrapDispatch::Fatal(m) && m@
            == "instruction guest-page fault"@),
        scause == 21 ==> (r matches TrapDispatch::Fatal(m) && m@ == "load guest-page fault"@),
        scause == 22 ==> (r matches TrapDispatch::Fatal(m) && m@ == "virtual instruction"@),
        scause == 23 ==> (r matches TrapDispatch::Fatal(m) && m@
            == "store/AMO guest-page fault"@),
        scause == 0x8000_0000_0000_0000 ==> (r matches TrapDispatch::Fatal(m) && m@
            == "user software interrupt"@),
        scause == 0x8000_0000_0000_0001 ==> (r matches TrapDispatch::Fatal(m) && m@
            == "supervisor software interrupt"@),
        scause == 0x8000_0000_0000_0002 ==> (r matches TrapDispatch::Fatal(m) && m@
            == "hypervisor software interrupt"@),
        scause == 0x8000_0000_0000_0003 ==> (r matches TrapDispatch::Fatal(m) && m@
            == "machine software interrupt"@),
        scause == 0x8000_0000_0000_0004 ==> (r matches TrapDispatch::Fatal(m) && m@
            == "user timer interrupt"@),
        scause == 0x8000_0000_0000_0005 ==> (r matches TrapDispatch::Fatal(m) && m@
            == "supervisor timer interrupt"@),
        scause == 0x8000_0000_0000_0006 ==> (r matches TrapDispatch::Fatal(m) && m@
            == "hypervisor timer interrupt"@),
        scause == 0x8000_0000_0000_0007 ==> (r matches TrapDispatch::Fatal(m) && m@
            == "machine timer interrupt"@),
        scause == 0x8000_0000_0000_0008 ==> (r matches TrapDispatch::Fatal(m) && m@
            == "user external interrupt"@),
        scause == 0x8000_0000_0000_0009 ==> (r matches TrapDispatch::Fatal(m) && m@
            == "supervisor external interrupt"@),
        scause == 0x8000_0000_0000_000a ==> (r matches TrapDispatch::Fatal(m) && m@
            == "hypervisor external interrupt"@),
        scause == 0x8000_0000_0000_000b ==> (r matches TrapDispatch::Fatal(m) && m@
            == "machine external interrupt"@),
        (r is Unknown) <==> !(scause <= 13 || scause == 15 || 20 <= scause <= 23
            || 0x8000_0000_0000_0000 <= scause <= 0x8000_0000_0000_000b),
{
    match scause {
        0 => TrapDispatch::Fatal("instr address misalign"),
        1 => TrapDispatch::Fatal("instruction access fault"),
        2 => TrapDispatch::Fatal("illegal instruction"),
        3 => TrapDispatch::Fatal("breakpoint"),
        4 => TrapDispatch::Fatal("load address misaligned"),
        5 => TrapDispatch::Fatal("load access fault"),
        6 => TrapDispatch::Fatal("store/AMO address misaligned"),
        7 => TrapDispatch::Fatal("store/AMO access fault"),
        8 => TrapDispatch::Syscall,
        9 => TrapDispatch::Fatal("environment call from HS-mode"),
        10 => TrapDispatch::Fatal("environment call from VS-mode"),
        11 => TrapDispatch::Fatal("environment call from M-mode"),
        12 => TrapDispatch::Fatal("instruction page fault"),
        13 => TrapDispatch::Fatal("load page fault"),
        15 => TrapDispatch::Fatal("store/AMO page fault"),
        20 => TrapDispatch::Fatal("instruction guest-page fault"),
        21 => TrapDispatch::Fatal("load guest-page fault"),
        22 => TrapDispatch::Fatal("virtual instruction"),
        23 => TrapDispatch::Fatal("store/AMO guest-page fault"),
        0x8000_0000_0000_0000 => TrapDispatch::Fatal("user software interrupt"),
        0x8000_0000_0000_0001 => TrapDispatch::Fatal("supervisor software interrupt"),
        0x8000_0000_0000_0002 => TrapDispatch::Fatal("hypervisor software interrupt"),
        0x8000_0000_0000_0003 => TrapDispatch::Fatal("machine software interrupt"),
        0x8000_0000_0000_0004 => TrapDispatch::Fatal("user timer interrupt"),
        0x8000_0000_0000_0005 => TrapDispatch::Fatal("supervisor timer interrupt"),
        0x8000_0000_0000_0006 => TrapDispatch::Fatal("hypervisor timer interrupt"),
        0x8000_0000_0000_0007 => TrapDispatch::Fatal("machine timer interrupt"),
        0x8000_0000_0000_0008 => TrapDispatch::Fatal("user external interrupt"),
        0x8000_0000_0000_0009 => TrapDispatch::Fatal("supervisor external interrupt"),
        0x8000_0000_0000_000a => TrapDispatch::Fatal("hypervisor external interrupt"),
        0x8000_0000_0000_000b => TrapDispatch::Fatal("machine external interrupt"),
        _ => TrapDispatch::Unknown,
    }
}

/// Read the syscall request out of a trap frame: the number sits in `a3`
/// (`x13`), the first argument in `a0` (`x10`). An unknown number comes
/// back unchanged, and the kernel stops on it.
pub fn syscall_action(frame: &TrapFrame) -> (r: Result<SyscallAction, u64>)
    ensures
        frame.x13 == 1 ==> r == Ok::<SyscallAction, u64>(
            SyscallAction::PutChar((frame.x10 & 0xFF) as u8),
        ),
        frame.x13 == 2 ==> r == Ok::<SyscallAction, u64>(SyscallAction::GetChar),
        frame.x13 == 3 ==> r == Ok::<SyscallAction, u64>(SyscallAction::Exit),
        !(1 <= frame.x13 <= 3) ==> r == Err::<SyscallAction, u64>(frame.x13),
{
    let decoded = Syscall::from_number(frame.x13);
    match decoded {
        Ok(s) => {
            proof {
                assert(s.spec_number() == frame.x13);
            }
            match s {
                Syscall::PUTCHAR => {
                    proof {
                        let a0 = frame.x10;
                        assert(a0 & 0xFF <= 0xFF) by (bit_vector);
                        assert(frame.x13 == 1);
                    }
                    Ok(SyscallAction::PutChar((frame.x10 & 0xFF) as u8))
                },
                Syscall::GETCHAR => {
                    proof {
                        assert(frame.x13 == 2);
                    }
                    Ok(SyscallAction::GetChar)
                },
                Syscall::EXIT => {
                    proof {
                        assert(frame.x13 == 3);
                    }
                    Ok(SyscallAction::Exit)
                },
            }
        },
        Err(other) => {
            proof {
                assert(Syscall::PUTCHAR.spec_number() == 1);
                assert(Syscall::GETCHAR.spec_number() == 2);
                assert(Syscall::EXIT.spec_number() == 3);
            }
            Err(other)
        },
    }
}

/// Put a syscall's result where the user reads it: `a0` (`x10`).
pub fn set_syscall_return(frame: &mut TrapFrame, value: u64)
    ensures
        *final(frame) == (TrapFrame { x10: value, ..*old(frame) }),
{
    frame.x10 = value;
}

/// The program counter to return to after a syscall: the instruction after
/// the `ecall`.
pub fn advance_sepc(user_pc: u64) -> (r: u64)
    requires
        user_pc + 4 <= u64::MAX,
    ensures
        r == user_pc + 4,
{
    user_pc + 4
}

} // verus!
