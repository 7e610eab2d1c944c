//! The kernel's view of the SBI firmware interface.
//!
//! The firmware is reached with an `ecall` from S-mode — EID in `a7`, FID
//! in `a6`, arguments in `a0..a5` — and answers in `a0` and `a1`. That
//! instruction, and the cooperative retry loop around the console read,
//! live outside this crate; the decoding of what came back is here.

use vstd::prelude::*;

verus! {

/// The legacy console-output extension id.
pub const SBI_EID_PUTCHAR: u64 = 1;

/// The legacy console-input extension id.
pub const SBI_EID_GETCHAR: u64 = 2;

/// What the firmware answers: an error word in `a0` and a value word in
/// `a1`.
#[derive(Debug, Clone, Copy, PartialEq, Eq, Structural)]
pub struct SbiReturn {
    /// The word that came back in `a0`.
    pub error: u64,
    /// The word that came back in `a1`.
    pub value: u64,
}

/// Decode a legacy console read: the character comes back in the error
/// word, and a negative word means no character is pending. A caller that
/// gets `None` yields and asks again.
pub fn getchar_outcome(ret: SbiReturn) -> (r: Option<u8>)
    ensures
        ret.error < 0x8000_0000_0000_0000 ==> r == Some((ret.error & 0xFF) as u8),
        ret.error >= 0x8000_0000_0000_0000 ==> r is None,
{
    let value = ret.error as i64;
    proof {
        let e = ret.error;
        assert((e as i64 >= 0) == (e < 0x8000_0000_0000_0000) && (e < 0x8000_0000_0000_0000
            ==> (e as i64) as u8 == (e & 0xFF) as u8)) by (bit_vector);
    }
    if value >= 0 {
        Some(value as u8)
    } else {
        None
    }
}

} // verus!
