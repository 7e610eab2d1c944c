//! Definitions shared between the kernel and user programs: the syscall
//! numbering and the octal field parser used by the TAR reader.

use vstd::prelude::*;

verus! {

/// A system call recognized by the kernel's trap dispatcher.
///
/// The user places the number of the call in `a3` and up to three arguments
/// in `a0..a2`; the result comes back in `a0`.
#[derive(Debug, Clone, Copy, PartialEq, Eq, Structural)]
pub enum Syscall {
    PUTCHAR,
    GETCHAR,
    EXIT,
}

impl Syscall {
    /// The number a user program loads into `a3` for this call.
    pub open spec fn spec_number(self) -> u64 {
        match self {
            Syscall::PUTCHAR => 1,
            Syscall::GETCHAR => 2,
            Syscall::EXIT => 3,
        }
    }

    /// Encode the call as its syscall number.
    pub fn as_number(self) -> (n: u64)
        ensures
            n == self.spec_number(),
    {
        match self {
            Syscall::PUTCHAR => 1,
            Syscall::GETCHAR => 2,
            Syscall::EXIT => 3,
        }
    }

    /// Decode a syscall number; an unknown number is handed back unchanged.
    pub fn from_number(value: u64) -> (r: Result<Syscall, u64>)
        ensures
            r matches Ok(s) ==> s.spec_number() == value,
            r matches Err(v) ==> v == value && forall|s: Syscall| s.spec_number() != value,
    {
        match value {
            1 => Ok(Syscall::PUTCHAR),
            2 => Ok(Syscall::GETCHAR),
            3 => Ok(Syscall::EXIT),
            _ => {
                proof {
                    assert(forall|s: Syscall| s.spec_number() == 1 || s.spec_number() == 2
                        || s.spec_number() == 3);
                }
                Err(value)
            },
        }
    }
}

/// Is `c` an ASCII octal digit?
pub open spec fn is_octal_digit(c: u8) -> bool {
    48 <= c <= 55
}

/// The value of the octal digits at the front of `s`, folded onto `acc`:
/// parsing stops at the first byte that is not an octal digit.
pub open spec fn octal_fold(s: Seq<u8>, acc: nat) -> nat
    decreases s.len(),
{
    if s.len() == 0 || !is_octal_digit(s[0]) {
        acc
    } else {
        octal_fold(s.drop_first(), (acc * 8 + (s[0] - 48)) as nat)
    }
}

/// The number denoted by the longest octal-digit prefix of `s`.
pub open spec fn spec_oct2int(s: Seq<u8>) -> nat {
    octal_fold(s, 0)
}

/// Folding never decreases the accumulator.
proof fn lemma_octal_fold_ge_acc(s: Seq<u8>, acc: nat)
    ensures
        octal_fold(s, acc) >= acc,
    decreases s.len(),
{
    if s.len() != 0 && is_octal_digit(s[0]) {
        lemma_octal_fold_ge_acc(s.drop_first(), (acc * 8 + (s[0] - 48)) as nat);
    }
}

/// Eight to a power, for bounding octal fields.
pub open spec fn pow8(n: nat) -> nat
    decreases n,
{
    if n == 0 {
        1
    } else {
        8 * pow8((n - 1) as nat)
    }
}

/// `8^n` is positive.
proof fn lemma_pow8_pos(n: nat)
    ensures
        pow8(n) >= 1,
    decreases n,
{
    if n > 0 {
        lemma_pow8_pos((n - 1) as nat);
    }
}

/// Folding `n` octal digits multiplies the accumulator's headroom by at
/// most `8^n`.
proof fn lemma_octal_fold_bound(s: Seq<u8>, acc: nat)
    ensures
        octal_fold(s, acc) < (acc + 1) * pow8(s.len()),
    decreases s.len(),
{
    if s.len() == 0 || !is_octal_digit(s[0]) {
        assert(pow8(s.len()) >= 1) by {
            lemma_pow8_pos(s.len());
        }
        assert(octal_fold(s, acc) == acc);
        assert((acc + 1) * pow8(s.len()) >= (acc + 1) * 1) by (nonlinear_arith)
            requires
                pow8(s.len()) >= 1,
        ;
    } else {
        let acc2 = (acc * 8 + (s[0] - 48)) as nat;
        lemma_octal_fold_bound(s.drop_first(), acc2);
        assert(acc2 + 1 <= 8 * (acc + 1));
        assert((acc2 + 1) * pow8(s.drop_first().len()) <= (8 * (acc + 1)) * pow8(
            s.drop_first().len(),
        )) by (nonlinear_arith)
            requires
                acc2 + 1 <= 8 * (acc + 1) && pow8(s.drop_first().len()) >= 0,
        ;
        assert((8 * (acc + 1)) * pow8(s.drop_first().len()) == (acc + 1) * pow8(s.len()))
            by (nonlinear_arith)
            requires
                pow8(s.len()) == 8 * pow8(s.drop_first().len()),
        ;
    }
}

/// The value of an octal field of at most 21 digits fits a 64-bit word,
/// which discharges `oct2int`'s overflow precondition for every field the
/// kernel reads.
pub proof fn lemma_oct2int_fits(s: Seq<u8>)
    requires
        s.len() <= 21,
    ensures
        spec_oct2int(s) < 0x8000_0000_0000_0000,
{
    lemma_octal_fold_bound(s, 0);
    assert(pow8(21) == 0x8000_0000_0000_0000) by {
        reveal_with_fuel(pow8, 22);
    }
    assert(pow8(s.len()) <= pow8(21)) by {
        lemma_pow8_monotone(s.len(), 21);
    }
    assert(spec_oct2int(s) == octal_fold(s, 0));
    assert(octal_fold(s, 0) < (0 + 1) * pow8(s.len()));
    assert((0 + 1) * pow8(s.len()) == pow8(s.len())) by (nonlinear_arith);
}

/// `8^n` grows with `n`.
proof fn lemma_pow8_monotone(m: nat, n: nat)
    requires
        m <= n,
    ensures
        pow8(m) <= pow8(n),
    decreases n,
{
    if m < n {
        lemma_pow8_monotone(m, (n - 1) as nat);
        assert(pow8((n - 1) as nat) <= 8 * pow8((n - 1) as nat)) by (nonlinear_arith)
            requires
                pow8((n - 1) as nat) >= 0,
        ;
    }
}

/// Parse the octal number at the front of `oct`, stopping at the first byte
/// that is not a digit `'0'..='7'`. An empty or digit-free input reads as 0.
pub fn oct2int(oct: &[u8]) -> (dec: u64)
    requires
        spec_oct2int(oct@) <= u64::MAX,
    ensures
        dec == spec_oct2int(oct@),
{
    let mut dec: u64 = 0;
    let mut i: usize = 0;
    proof {
        assert(oct@.skip(0) =~= oct@);
    }
    while i < oct.len()
        invariant
            0 <= i <= oct@.len(),
            spec_oct2int(oct@) <= u64::MAX,
            spec_oct2int(oct@) == octal_fold(oct@.skip(i as int), dec as nat),
        decreases oct@.len() - i,
    {
        let c = oct[i];
        if c < 48 || c > 55 {
            proof {
                assert(octal_fold(oct@.skip(i as int), dec as nat) == dec);
            }
            return dec;
        }
        proof {
            let tail = oct@.skip(i as int);
            assert(tail[0] == c);
            assert(tail.drop_first() =~= oct@.skip(i as int + 1));
            lemma_octal_fold_ge_acc(oct@.skip(i as int + 1),
                dec as nat * 8 + (c - 48) as nat);
        }
        dec = dec * 8 + ((c - 48) as u64);
        i = i + 1;
    }
    proof {
        assert(oct@.skip(i as int) =~= Seq::<u8>::empty());
    }
    dec
}

} // verus!
