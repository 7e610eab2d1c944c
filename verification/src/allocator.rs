//! The kernel's bump allocator: it hands out monotonically growing addresses
//! from a fixed heap region and never takes anything back.

use vstd::prelude::*;

use crate::memory::Paddr;
use vstd::arithmetic::div_mod::{lemma_fundamental_div_mod, lemma_mod_multiples_basic};

verus! {

/// The smallest multiple of `align` that is at least `n`.
pub open spec fn round_up(n: int, align: int) -> int
    recommends
        align > 0,
{
    if n % align == 0 {
        n
    } else {
        n + align - n % align
    }
}

/// `round_up` lands between `n` and `n + align`, on a multiple of `align`.
pub proof fn lemma_round_up(n: int, align: int)
    requires
        0 <= n,
        0 < align,
    ensures
        n <= round_up(n, align) < n + align,
        round_up(n, align) % align == 0,
{
    lemma_fundamental_div_mod(n, align);
    if n % align != 0 {
        let q = n / align;
        assert(align * (q + 1) == align * q + align) by (nonlinear_arith);
        assert(round_up(n, align) == align * (q + 1)) by {
            assert(n == align * q + n % align);
        }
        lemma_mod_multiples_basic(q + 1, align);
    }
}

/// The moving part of the allocator: the next free address and the end of
/// the heap region.
#[derive(Debug, Clone, Copy, PartialEq, Eq, Structural)]
pub struct AllocState {
    /// The lowest address not yet handed out.
    pub next: u64,
    /// One past the last usable heap byte.
    pub end: u64,
}

/// A bump allocator over a fixed region, set up once at boot. Allocation
/// rounds the cursor up to the requested alignment and advances it; freeing
/// is a no-op. The kernel owns a single instance of this for its whole
/// lifetime, shared behind a lock that the single-hart build never contends.
pub struct BumpAllocator {
    /// `None` until `init` has run.
    pub mutable: Option<AllocState>,
}

/// Where the next allocation of `size` bytes aligned to `align` would start.
pub open spec fn spec_alloc_addr(s: AllocState, align: u64) -> int {
    round_up(s.next as int, align as int)
}

impl BumpAllocator {
    /// An allocator that is not yet backed by a heap region.
    pub fn new() -> (r: BumpAllocator)
        ensures
            r.mutable is None,
    {
        BumpAllocator { mutable: None }
    }

    /// Hand the allocator its heap region `[start, end)`.
    pub fn init(&mut self, start: u64, end: u64)
        ensures
            final(self).mutable == Some(AllocState { next: start, end: end }),
    {
        self.mutable = Some(AllocState { next: start, end });
    }

    /// Allocate `size` bytes aligned to `align`: round the cursor up to
    /// `align`, advance it past the new block, and return the block's start.
    ///
    /// The allocator must be initialized, and the block must fit the region,
    /// since the kernel treats an uninitialized allocator and heap
    /// exhaustion as fatal.
    pub fn allocate(&mut self, size: u64, align: u64) -> (addr: u64)
        requires
            old(self).mutable is Some,
            0 < align,
            spec_alloc_addr(old(self).mutable.unwrap(), align) + size <= old(
                self,
            ).mutable.unwrap().end,
        ensures
            ({
                let m = old(self).mutable.unwrap();
                &&& addr == spec_alloc_addr(m, align)
                &&& addr % align == 0
                &&& m.next <= addr
                &&& addr + size <= m.end
                &&& final(self).mutable == Some(
                    AllocState { next: (addr + size) as u64, end: m.end },
                )
            }),
    {
        let m = match &self.mutable {
            Some(m) => *m,
            None => {
                proof {
                    assert(false);
                }
                AllocState { next: 0, end: 0 }
            },
        };
        proof {
            lemma_round_up(m.next as int, align as int);
        }
        let rem = m.next % align;
        let addr = if rem == 0 {
            m.next
        } else {
            m.next + (align - rem)
        };
        self.mutable = Some(AllocState { next: addr + size, end: m.end });
        addr
    }

    /// Freeing returns nothing to the region: the kernel never reclaims.
    pub fn dealloc(&mut self, _addr: u64)
        ensures
            *final(self) == *old(self),
    {
    }
}

/// Where `alloc_pages(n)` on state `s` places the frames.
pub open spec fn spec_alloc_pages_addr(s: AllocState) -> int {
    round_up(s.next as int, 4096)
}

/// The allocator cursor after `alloc_pages(n)` on state `s`.
pub open spec fn spec_alloc_pages_next(s: AllocState, n: usize) -> int {
    spec_alloc_pages_addr(s) + 4096 * n
}

/// Allocate `n` page-aligned frames, `4096 * n` bytes in one contiguous
/// block. This is the only allocation path paging and DMA structures use.
pub fn alloc_pages(allocator: &mut BumpAllocator, n: usize) -> (r: Paddr)
    requires
        old(allocator).mutable is Some,
        4096 * n <= u64::MAX,
        spec_alloc_pages_next(old(allocator).mutable.unwrap(), n) <= old(
            allocator,
        ).mutable.unwrap().end,
    ensures
        ({
            let m = old(allocator).mutable.unwrap();
            &&& r.0 == spec_alloc_pages_addr(m)
            &&& r.0 % 4096 == 0
            &&& m.next <= r.0
            &&& final(allocator).mutable == Some(
                AllocState { next: spec_alloc_pages_next(m, n) as u64, end: m.end },
            )
        }),
{
    let bytes = 4096u64 * (n as u64);
    Paddr(allocator.allocate(bytes, 4096))
}

/// Successive page allocations never overlap: when one call hands out `n`
/// frames at `a1` and the next call hands out frames at `a2`, the first
/// block ends at or before `a2`.
pub proof fn lemma_alloc_pages_disjoint(m0: AllocState, n1: usize, m1: AllocState)
    requires
        m1.next == spec_alloc_pages_next(m0, n1),
        0 <= m1.next <= u64::MAX,
    ensures
        spec_alloc_pages_addr(m0) + 4096 * n1 <= spec_alloc_pages_addr(m1),
{
    lemma_round_up(m1.next as int, 4096);
}

} // verus!
