//! Processes and the cooperative scheduler.
//!
//! The kernel keeps a fixed table of eight process slots. Slot 0 always
//! holds the idle process, which is never a yield target while anything else
//! can run. A yield scans the table cyclically from the slot after the
//! current one and switches to the first non-idle process it finds.

use vstd::prelude::*;

use crate::allocator::{alloc_pages, spec_alloc_pages_addr, AllocState, BumpAllocator};
use crate::constants::{USER_BASE, VADDR_END};
use crate::memory::{
    lemma_aligned_step, lemma_same_vpn_iff, lemma_vpn_base_aligned, lemma_vpn_base_of_aligned,
    spec_is_aligned, vpn_base, PageFlags, PageTables, Paddr, Vaddr, PADDR_LIMIT, PTE,
};
use vstd::arithmetic::div_mod::{lemma_div_is_ordered, lemma_div_multiples_vanish,
    lemma_div_plus_one};

verus! {

/// How many pages cover `len` bytes.
pub open spec fn spec_page_count(len: int) -> int {
    (len + 4095) / 4096
}

/// The kernel mapping preset, as a value.
pub open spec fn spec_kernel_all() -> PageFlags {
    PageFlags { read: true, write: true, execute: true, user: false }
}

/// The user mapping preset, as a value.
pub open spec fn spec_user_all() -> PageFlags {
    PageFlags { read: true, write: true, execute: true, user: true }
}

/// Bytes of kernel stack each process owns.
pub const PROC_STACK_SIZE: usize = 8192;

/// Slots in the process table.
pub const PROCS_MAX: usize = 8;

/// A process identifier: the index of the process's slot in the table.
/// 0 is reserved for the idle process.
#[derive(Debug, Clone, Copy, PartialEq, Eq, Structural)]
pub struct Pid(pub usize);

impl Pid {
    /// The identifier for slot `idx`; slot 0 belongs to idle alone, so the
    /// kernel treats a request for it as a programmer error.
    pub fn new(idx: usize) -> (r: Pid)
        requires
            idx != 0,
        ensures
            r.0 == idx,
    {
        Pid(idx)
    }

    /// The idle process's identifier.
    pub fn idle() -> (r: Pid)
        ensures
            r.0 == 0,
    {
        Pid(0)
    }

    /// The slot index behind this identifier.
    pub fn as_usize(self) -> (r: usize)
        ensures
            r == self.0,
    {
        self.0
    }

    /// Is this the idle process?
    pub fn is_idle(self) -> (b: bool)
        ensures
            b == (self.0 == 0),
    {
        self.0 == 0
    }
}

/// A process: its identifier, its saved kernel stack pointer, and its
/// address space. The idle process and uninitialized slots carry no address
/// space; every created process does. The 8 KiB kernel stack itself is a
/// region of kernel memory outside this model; `sp` is the value saved into
/// and restored from it by the context switch.
pub struct Process {
    /// The slot this process occupies.
    pub pid: Pid,
    /// The saved kernel stack pointer of a suspended process.
    pub sp: u64,
    /// The process's page-table tree; `None` exactly for the idle process
    /// and for slots that creation has not finished.
    pub page_table: Option<PageTables>,
}

impl Process {
    /// A blank process record: every field still has to be filled in by
    /// process creation.
    pub fn uninitialized() -> (r: Process)
        ensures
            r.pid.0 == 0,
            r.sp == 0,
            r.page_table is None,
    {
        Process { pid: Pid::idle(), sp: 0, page_table: None }
    }

    /// This process's identifier.
    pub fn pid(&self) -> (r: Pid)
        ensures
            r == self.pid,
    {
        self.pid
    }

    /// The saved stack pointer slot, for the context switch to fill and
    /// drain.
    pub fn get_mut_sp(&mut self) -> (r: &mut u64)
        ensures
            *r == old(self).sp,
            *final(self) == (Process { sp: *final(r), ..*old(self) }),
    {
        &mut self.sp
    }

    /// Is this the idle process?
    pub fn is_idle_process(&self) -> (b: bool)
        ensures
            b == (self.pid.0 == 0),
    {
        self.pid.is_idle()
    }
}

/// What a yield decided: switch from `prev` to `next`, whose address space
/// is installed by writing `satp` into the SATP register.
#[derive(Debug, Clone, Copy, PartialEq, Eq, Structural)]
pub struct SwitchDecision {
    /// The process that was running.
    pub prev: Pid,
    /// The process to run next.
    pub next: Pid,
    /// The SATP value for `next`: Sv39 mode in the top bits, the root
    /// page-table frame number below.
    pub satp: u64,
}

/// The SATP register value that installs the Sv39 root table at physical
/// address `root`.
pub open spec fn spec_satp(root: u64) -> u64 {
    (8u64 << 60) | (root / 4096)
}

/// SATP composition: the value written for a root page-table frame `f` is
/// `(8 << 60) | (f >> 12)`.
pub proof fn lemma_satp_composition(root: u64)
    ensures
        spec_satp(root) == (8u64 << 60) | (root >> 12),
{
    assert((8u64 << 60) | (root / 4096) == (8u64 << 60) | (root >> 12)) by (bit_vector);
}

/// The process scheduler: the slot table and the currently running process.
pub struct Scheduler {
    /// The process table; slot 0 always holds idle.
    pub procs: Vec<Option<Process>>,
    /// The identifier of the process running now.
    pub current: Pid,
}

impl Scheduler {
    /// Slot `j` holds a process that a yield may pick: present and not idle.
    pub open spec fn runnable_at(self, j: int) -> bool {
        &&& self.procs@[j] is Some
        &&& self.procs@[j].unwrap().pid.0 != 0
    }

    /// The scheduler's invariant: eight slots, idle in slot 0, every
    /// process's identifier names its slot, every non-idle process has an
    /// address space, and the current identifier points at an occupied slot.
    pub open spec fn wf(self) -> bool {
        &&& self.procs@.len() == 8
        &&& self.current.0 < 8
        &&& self.procs@[0] is Some
        &&& forall|i: int|
            0 <= i < 8 && (#[trigger] self.procs@[i]) is Some ==> self.procs@[i].unwrap().pid.0
                == i
        &&& forall|i: int|
            0 < i < 8 && (#[trigger] self.procs@[i]) is Some
                ==> self.procs@[i].unwrap().page_table is Some
        &&& self.procs@[self.current.0 as int] is Some
    }

    /// A fresh scheduler: the idle process sits in slot 0 and runs.
    pub fn new() -> (r: Scheduler)
        ensures
            r.wf(),
            r.current.0 == 0,
            r.procs@.len() == 8,
            r.procs@[0] is Some,
            forall|i: int| 0 < i < 8 ==> (#[trigger] r.procs@[i]) is None,
    {
        let idle = Process { pid: Pid::idle(), sp: 0, page_table: None };
        let mut procs: Vec<Option<Process>> = Vec::new();
        procs.push(Some(idle));
        procs.push(None);
        procs.push(None);
        procs.push(None);
        procs.push(None);
        procs.push(None);
        procs.push(None);
        procs.push(None);
        Scheduler { procs, current: Pid::idle() }
    }

    /// The first offset `k` in `k0..=8` such that the slot `k` places after
    /// the current one holds a runnable process.
    pub open spec fn spec_next_offset(self, k0: int) -> Option<int>
        decreases 9 - k0,
    {
        if k0 > 8 {
            None
        } else if self.runnable_at((self.current.0 + k0) % 8) {
            Some(k0)
        } else {
            self.spec_next_offset(k0 + 1)
        }
    }

    /// The slot a yield switches to: the first runnable slot after the
    /// current one, cyclically.
    pub open spec fn spec_find_next(self) -> Option<int> {
        match self.spec_next_offset(1) {
            None => None,
            Some(k) => Some((self.current.0 + k) % 8),
        }
    }

    /// What a found offset means: the slots strictly before it in scan
    /// order hold nothing runnable, the found one does.
    proof fn lemma_next_offset_found(self, k0: int, k: int)
        requires
            1 <= k0 <= 8,
            self.spec_next_offset(k0) == Some(k),
        ensures
            k0 <= k <= 8,
            self.runnable_at((self.current.0 + k) % 8),
            forall|l: int| k0 <= l < k ==> !(#[trigger] self.runnable_at((self.current.0 + l) % 8)),
        decreases 9 - k0,
    {
        if !self.runnable_at((self.current.0 + k0) % 8) {
            if k0 < 8 {
                self.lemma_next_offset_found(k0 + 1, k);
            } else {
                assert(self.spec_next_offset(k0 + 1) is None);
            }
        }
    }

    /// When the scan comes back empty, nothing after `k0` is runnable.
    proof fn lemma_next_offset_none(self, k0: int)
        requires
            1 <= k0,
            self.spec_next_offset(k0) is None,
        ensures
            forall|l: int| k0 <= l <= 8 ==> !(#[trigger] self.runnable_at((self.current.0 + l) % 8)),
        decreases 9 - k0,
    {
        if k0 <= 8 {
            self.lemma_next_offset_none(k0 + 1);
        }
    }

    /// A runnable slot anywhere in the table guarantees the scan finds one.
    proof fn lemma_runnable_found(self, j: int)
        requires
            self.wf(),
            0 <= j < 8,
            self.runnable_at(j),
        ensures
            self.spec_next_offset(1) is Some,
    {
        let cur = self.current.0 as int;
        let k = if j > cur {
            j - cur
        } else {
            j - cur + 8
        };
        assert((cur + k) % 8 == j) by (nonlinear_arith)
            requires
                0 <= j < 8 && 0 <= cur < 8 && (k == j - cur || k == j - cur + 8),
        ;
        if self.spec_next_offset(1) is None {
            self.lemma_next_offset_none(1);
        }
    }

    /// The next process a yield would switch to: the first non-idle,
    /// occupied slot after the current one in cyclic scan order. The kernel
    /// treats an empty scan as fatal, so a runnable process is demanded up
    /// front.
    pub fn find_next_process(&self) -> (r: Pid)
        requires
            self.wf(),
            self.spec_next_offset(1) is Some,
        ensures
            Some(r.0 as int) == self.spec_find_next(),
            self.runnable_at(r.0 as int),
            r.0 < 8,
    {
        let cur = self.current.as_usize();
        let mut i: usize = 1;
        while i <= 8
            invariant
                self.wf(),
                self.spec_next_offset(1) is Some,
                1 <= i <= 9,
                cur == self.current.0,
                forall|l: int| 1 <= l < i ==> !(#[trigger] self.runnable_at((self.current.0 + l) % 8)),
            decreases 9 - i,
        {
            let j = (cur + i) % 8;
            match &self.procs[j] {
                Some(p) => {
                    if !p.is_idle_process() {
                        proof {
                            self.lemma_offset_is_first(i as int);
                        }
                        return Pid(j);
                    }
                },
                None => {},
            }
            i = i + 1;
        }
        proof {
            self.lemma_next_offset_found(1, self.spec_next_offset(1).unwrap());
            assert(false);
        }
        Pid(0)
    }

    /// If nothing before offset `k` is runnable and offset `k` is, the scan
    /// stops exactly at `k`.
    proof fn lemma_offset_is_first(self, k: int)
        requires
            1 <= k <= 8,
            self.runnable_at((self.current.0 + k) % 8),
            forall|l: int| 1 <= l < k ==> !(#[trigger] self.runnable_at((self.current.0 + l) % 8)),
        ensures
            self.spec_next_offset(1) == Some(k),
    {
        self.lemma_offset_stops(1, k);
    }

    /// Scan-by-scan version of `lemma_offset_is_first`.
    proof fn lemma_offset_stops(self, k0: int, k: int)
        requires
            1 <= k0 <= k <= 8,
            self.runnable_at((self.current.0 + k) % 8),
            forall|l: int| k0 <= l < k ==> !(#[trigger] self.runnable_at((self.current.0 + l) % 8)),
        ensures
            self.spec_next_offset(k0) == Some(k),
        decreases 9 - k0,
    {
        if k0 < k {
            self.lemma_offset_stops(k0 + 1, k);
        }
    }

    /// Decide a cooperative yield. When the chosen process is the one
    /// already running, nothing changes and nothing has to be done. When it
    /// is another one, the current identifier moves to it and the returned
    /// decision carries the SATP value that installs its address space; the
    /// caller performs the actual CSR writes and the context switch.
    pub fn do_yield(&mut self) -> (r: Option<SwitchDecision>)
        requires
            old(self).wf(),
            old(self).spec_next_offset(1) is Some,
        ensures
            final(self).wf(),
            final(self).procs@ == old(self).procs@,
            r is None ==> *final(self) == *old(self) && old(self).spec_find_next() == Some(
                old(self).current.0 as int,
            ),
            r matches Some(d) ==> {
                &&& Some(d.next.0 as int) == old(self).spec_find_next()
                &&& d.next.0 != old(self).current.0
                &&& d.prev == old(self).current
                &&& final(self).current == d.next
                &&& d.next.0 != 0
                &&& old(self).procs@[d.next.0 as int].unwrap().page_table is Some
                &&& d.satp == spec_satp(
                    old(self).procs@[d.next.0 as int].unwrap().page_table.unwrap().base,
                )
            },
    {
        let next = self.find_next_process();
        if self.current.as_usize() == next.as_usize() {
            return None;
        }
        let prev = self.current;
        let satp = match &self.procs[next.as_usize()] {
            Some(p) => {
                match &p.page_table {
                    Some(pt) => (8u64 << 60) | (pt.base / 4096),
                    None => {
                        proof {
                            assert(false);
                        }
                        0
                    },
                }
            },
            None => {
                proof {
                    assert(false);
                }
                0
            },
        };
        self.current = next;
        Some(SwitchDecision { prev, next, satp })
    }

    /// The first empty slot at or after `k0`.
    pub open spec fn spec_find_free(self, k0: int) -> Option<int>
        decreases 8 - k0,
    {
        if k0 >= 8 {
            None
        } else if self.procs@[k0] is None {
            Some(k0)
        } else {
            self.spec_find_free(k0 + 1)
        }
    }

    /// What a found free slot means: it is empty and every slot before it
    /// is taken.
    proof fn lemma_find_free_found(self, k0: int, k: int)
        requires
            0 <= k0 <= 8,
            self.spec_find_free(k0) == Some(k),
        ensures
            k0 <= k < 8,
            self.procs@[k] is None,
            forall|l: int| k0 <= l < k ==> (#[trigger] self.procs@[l]) is Some,
        decreases 8 - k0,
    {
        if k0 < 8 && self.procs@[k0] is Some {
            self.lemma_find_free_found(k0 + 1, k);
        }
    }

    /// If every slot before `k` is taken and `k` is empty, the scan stops
    /// exactly at `k`.
    proof fn lemma_find_free_stops(self, k0: int, k: int)
        requires
            0 <= k0 <= k < 8,
            self.procs@[k] is None,
            forall|l: int| k0 <= l < k ==> (#[trigger] self.procs@[l]) is Some,
        ensures
            self.spec_find_free(k0) == Some(k),
        decreases 8 - k0,
    {
        if k0 < k {
            self.lemma_find_free_stops(k0 + 1, k);
        }
    }

    /// The index of the first free slot of the table. Process creation
    /// treats a full table as fatal, so a free slot is demanded up front.
    fn find_free_index(&self) -> (r: usize)
        requires
            self.wf(),
            self.spec_find_free(0) is Some,
        ensures
            Some(r as int) == self.spec_find_free(0),
            r < 8,
            self.procs@[r as int] is None,
            r != 0,
    {
        let mut i: usize = 0;
        while i < 8
            invariant
                self.wf(),
                i <= 8,
                self.spec_find_free(0) is Some,
                forall|l: int| 0 <= l < i ==> (#[trigger] self.procs@[l]) is Some,
            decreases 8 - i,
        {
            match &self.procs[i] {
                None => {
                    proof {
                        self.lemma_find_free_stops(0, i as int);
                    }
                    return i;
                },
                Some(_) => {},
            }
            i = i + 1;
        }
        proof {
            self.lemma_find_free_found(0, self.spec_find_free(0).unwrap());
            assert(false);
        }
        0
    }

    /// Create a process around a user image of `image_len` bytes.
    ///
    /// The first free slot gives the process its identifier. A fresh
    /// address-space tree gets the kernel's identity map over
    /// `[kernel_start, kernel_end)` and one freshly allocated frame per
    /// image page at `USER_BASE`, with the user preset. The caller copies
    /// the image bytes into those frames and seeds the kernel stack with
    /// the synthetic register frame that makes the first context switch
    /// land in the user-entry trampoline; both live in real kernel memory.
    ///
    /// The table frames come from one contiguous block big enough for the
    /// worst case, reserved from the allocator up front, so nothing this
    /// call maps overlaps anything else the allocator hands out.
    pub fn create_process(
        &mut self,
        allocator: &mut BumpAllocator,
        image_len: usize,
        kernel_start: u64,
        kernel_end: u64,
    ) -> (r: Pid)
        requires
            old(self).wf(),
            old(self).spec_find_free(0) is Some,
            old(allocator).mutable is Some,
            spec_is_aligned(kernel_start),
            kernel_start <= kernel_end <= VADDR_END,
            USER_BASE + 4096 * spec_page_count(image_len as int) <= kernel_start,
            1 + 2 * (spec_page_count(kernel_end - kernel_start) + spec_page_count(
                image_len as int,
            )) <= usize::MAX,
            ({
                let m0 = old(allocator).mutable.unwrap();
                let pool = 1 + 2 * (spec_page_count(kernel_end - kernel_start)
                    + spec_page_count(image_len as int));
                &&& spec_alloc_pages_addr(m0) + 4096 * (pool + spec_page_count(
                    image_len as int,
                )) <= m0.end
                &&& m0.end <= PADDR_LIMIT
            }),
        ensures
            final(self).wf(),
            final(self).current == old(self).current,
            Some(r.0 as int) == old(self).spec_find_free(0),
            0 < r.0 < 8,
            forall|i: int|
                0 <= i < 8 && i != r.0 ==> final(self).procs@[i] == old(self).procs@[i],
            ({
                let m0 = old(allocator).mutable.unwrap();
                let p0 = spec_alloc_pages_addr(m0);
                let kp = spec_page_count(kernel_end - kernel_start);
                let up = spec_page_count(image_len as int);
                let u0 = p0 + 4096 * (1 + 2 * (kp + up));
                let slot = final(self).procs@[r.0 as int];
                &&& slot is Some
                &&& slot.unwrap().pid.0 == r.0
                &&& slot.unwrap().sp == 0
                &&& slot.unwrap().page_table is Some
                &&& ({
                    let pt = slot.unwrap().page_table.unwrap();
                    &&& pt.wf()
                    &&& pt.base == p0
                    &&& forall|va: u64|
                        kernel_start <= vpn_base(va) < kernel_end ==> pt.lookup(va) == Some(
                            PTE::spec_leaf(vpn_base(va), spec_kernel_all()),
                        )
                    &&& forall|j: int|
                        0 <= j < up ==> #[trigger] pt.lookup((USER_BASE + 4096 * j) as u64) == Some(
                            PTE::spec_leaf((u0 + 4096 * j) as u64, spec_user_all()),
                        )
                    &&& forall|va: u64|
                        !(kernel_start <= vpn_base(va) < kernel_end) && !(USER_BASE
                            <= vpn_base(va) < USER_BASE + 4096 * up) ==> pt.lookup(va) is None
                })
                &&& final(allocator).mutable == Some(
                    AllocState { next: (u0 + 4096 * up) as u64, end: m0.end },
                )
            }),
    {
        let idx = self.find_free_index();
        let kpages = (kernel_end - kernel_start + 4095) / 4096;
        let upages = ((image_len as u64) + 4095) / 4096;
        let pool_frames = 1 + 2 * (kpages + upages);
        let ghost m0 = old(allocator).mutable.unwrap();
        let pt_base = alloc_pages(allocator, pool_frames as usize);
        let mut pt = PageTables::new(pt_base);
        map_kernel_range(&mut pt, kernel_start, kernel_end);
        map_user_image(&mut pt, allocator, image_len);
        let created = Process { pid: Pid(idx), sp: 0, page_table: Some(pt) };
        self.procs[idx] = Some(created);
        Pid(idx)
    }

    /// The identifiers of the processes currently in the table, in slot
    /// order.
    pub fn running_processes(&self) -> (r: Vec<Pid>)
        requires
            self.wf(),
        ensures
            r@.len() <= 8,
            forall|n: int|
                0 <= n < r@.len() ==> self.procs@[(#[trigger] r@[n]).0 as int] is Some,
            forall|i: int|
                0 <= i < 8 && (#[trigger] self.procs@[i]) is Some ==> exists|n: int|
                    0 <= n < r@.len() && r@[n].0 == i,
    {
        let mut r: Vec<Pid> = Vec::new();
        let mut i: usize = 0;
        while i < 8
            invariant
                self.wf(),
                i <= 8,
                r@.len() <= i,
                forall|n: int|
                    0 <= n < r@.len() ==> self.procs@[(#[trigger] r@[n]).0 as int] is Some
                        && r@[n].0 < i,
                forall|j: int|
                    0 <= j < i && (#[trigger] self.procs@[j]) is Some ==> exists|n: int|
                        0 <= n < r@.len() && r@[n].0 == j,
            decreases 8 - i,
        {
            let ghost prev = r@;
            match &self.procs[i] {
                Some(_) => {
                    r.push(Pid(i));
                },
                None => {},
            }
            proof {
                assert forall|j: int|
                    0 <= j < i + 1 && (#[trigger] self.procs@[j]) is Some implies exists|n: int|
                    0 <= n < r@.len() && r@[n].0 == j by {
                    if j < i {
                        let n = choose|n: int| 0 <= n < prev.len() && prev[n].0 == j;
                        assert(r@[n].0 == j);
                    } else {
                        assert(r@[r@.len() - 1].0 == j);
                    }
                }
            }
            i = i + 1;
        }
        r
    }

    /// The process in slot `pid`, if that slot is occupied.
    pub fn get(&self, pid: Pid) -> (r: Option<&Process>)
        requires
            self.wf(),
            pid.0 < 8,
        ensures
            match r {
                Some(p) => self.procs@[pid.0 as int] == Some(*p),
                None => self.procs@[pid.0 as int] is None,
            },
    {
        match &self.procs[pid.as_usize()] {
            Some(p) => Some(p),
            None => None,
        }
    }

    /// A mutable handle on the process in slot `pid`, if that slot is
    /// occupied.
    pub fn get_mut(&mut self, pid: Pid) -> (r: Option<&mut Process>)
        requires
            old(self).wf(),
            pid.0 < 8,
        ensures
            match r {
                Some(p) => {
                    &&& *p == old(self).procs@[pid.0 as int].unwrap()
                    &&& old(self).procs@[pid.0 as int] is Some
                    &&& final(self).procs@ == old(self).procs@.update(
                        pid.0 as int,
                        Some(*final(p)),
                    )
                    &&& final(self).current == old(self).current
                },
                None => {
                    &&& old(self).procs@[pid.0 as int] is None
                    &&& final(self).procs@ =~= old(self).procs@
                    &&& final(self).current == old(self).current
                },
            },
    {
        match &mut self.procs[pid.as_usize()] {
            Some(p) => Some(p),
            None => None,
        }
    }
}

/// Covering `d` more bytes takes one page plus whatever covers `d - 4096`.
proof fn lemma_page_count_step(d: int)
    requires
        d > 0,
    ensures
        spec_page_count(d) >= 1,
        spec_page_count(d - 4096) == spec_page_count(d) - 1,
{
    lemma_div_multiples_vanish(1, 4096);
    lemma_div_is_ordered(4096, d + 4095, 4096);
    lemma_div_plus_one(d - 1, 4096);
}

/// Identity-map every page of `[start, end)` with the kernel preset, page
/// by page, as each process's view of kernel memory.
pub fn map_kernel_range(pt: &mut PageTables, start: u64, end: u64)
    requires
        old(pt).wf(),
        spec_is_aligned(start),
        start <= end <= VADDR_END,
        forall|va: u64| start <= vpn_base(va) < end ==> old(pt).lookup(va) is None,
        old(pt).base + 4096 * (old(pt).table_count() + 2 * spec_page_count(end - start))
            <= PADDR_LIMIT,
    ensures
        final(pt).wf(),
        final(pt).base == old(pt).base,
        final(pt).base + 4096 * final(pt).table_count() <= old(pt).base + 4096 * (old(
            pt,
        ).table_count() + 2 * spec_page_count(end - start)),
        forall|va: u64|
            start <= vpn_base(va) < end ==> final(pt).lookup(va) == Some(
                PTE::spec_leaf(vpn_base(va), spec_kernel_all()),
            ),
        forall|va: u64|
            !(start <= vpn_base(va) < end) ==> final(pt).lookup(va) == old(pt).lookup(va),
{
    let mut addr = start;
    let ghost kp = spec_page_count(end - start);
    let ghost mut k: int = 0;
    while addr < end
        invariant
            pt.wf(),
            pt.base == old(pt).base,
            spec_is_aligned(addr),
            start <= addr <= end + 4095,
            end <= VADDR_END,
            kp == spec_page_count(end - start),
            forall|va: u64| start <= vpn_base(va) < end ==> old(pt).lookup(va) is None,
            addr == start + 4096 * k,
            0 <= k <= kp,
            pt.table_count() <= old(pt).table_count() + 2 * k,
            pt.base + 4096 * (pt.table_count() + 2 * spec_page_count(end - addr))
                <= PADDR_LIMIT,
            forall|va: u64|
                start <= vpn_base(va) < addr ==> pt.lookup(va) == Some(
                    PTE::spec_leaf(vpn_base(va), spec_kernel_all()),
                ),
            forall|va: u64|
                !(start <= vpn_base(va) < addr) ==> pt.lookup(va) == old(pt).lookup(va),
        decreases kp - k,
    {
        let ghost pre = *pt;
        proof {
            lemma_page_count_step(end - addr);
            lemma_vpn_base_of_aligned(addr);
            // still inside the range: one more page is owed
            lemma_div_multiples_vanish(k, 4096);
            lemma_div_plus_one((end - start - 1) as int, 4096);
            lemma_div_is_ordered(4096 * k, end - start - 1, 4096);
            assert(k < kp);
            assert(start <= vpn_base(addr) < end);
            assert(pt.lookup(addr) == old(pt).lookup(addr));
            assert(old(pt).lookup(addr) is None);
        }
        pt.map_page(Vaddr(addr), Paddr(addr), PageFlags::kernel_all());
        proof {
            assert forall|va: u64|
                start <= vpn_base(va) < addr + 4096 implies pt.lookup(va) == Some(
                PTE::spec_leaf(vpn_base(va), spec_kernel_all()),
            ) by {
                lemma_same_vpn_iff(va, addr);
                if vpn_base(va) == addr {
                    pt.lemma_lookup_same_vpn(va, addr);
                } else {
                    lemma_vpn_base_aligned(va);
                    if vpn_base(va) > addr {
                        lemma_aligned_step(addr, vpn_base(va));
                    }
                    assert(vpn_base(va) < addr);
                }
            }
            assert forall|va: u64|
                !(start <= vpn_base(va) < addr + 4096) implies pt.lookup(va) == old(
                pt,
            ).lookup(va) by {
                lemma_same_vpn_iff(va, addr);
            }
        }
        addr = addr + 4096;
        proof {
            k = k + 1;
        }
    }
    proof {
        assert forall|va: u64|
            start <= vpn_base(va) < end implies pt.lookup(va) == Some(
            PTE::spec_leaf(vpn_base(va), spec_kernel_all()),
        ) by {
            assert(vpn_base(va) < addr);
        }
        assert forall|va: u64|
            !(start <= vpn_base(va) < end) implies pt.lookup(va) == old(pt).lookup(va) by {
            if start <= vpn_base(va) < addr {
                // a page number base past `end` but below the cursor would be
                // a page-aligned value strictly between the last mapped page
                // and the cursor, and there is none
                lemma_vpn_base_aligned(va);
                assert(addr >= 4096);
                lemma_aligned_step((addr - 4096) as u64, vpn_base(va));
                assert(false);
            }
        }
    }
}

/// Map the pages of a user image of `image_len` bytes at `USER_BASE`, each
/// page backed by a frame freshly taken from the allocator. The caller
/// copies the image bytes into those frames; here the frames are chosen and
/// wired into the tree with the user preset.
pub fn map_user_image(pt: &mut PageTables, allocator: &mut BumpAllocator, image_len: usize)
    requires
        old(pt).wf(),
        old(allocator).mutable is Some,
        USER_BASE + 4096 * spec_page_count(image_len as int) <= VADDR_END,
        forall|va: u64|
            USER_BASE <= vpn_base(va) < USER_BASE + 4096 * spec_page_count(image_len as int)
                ==> old(pt).lookup(va) is None,
        old(pt).base + 4096 * (old(pt).table_count() + 2 * spec_page_count(image_len as int))
            <= PADDR_LIMIT,
        ({
            let m0 = old(allocator).mutable.unwrap();
            &&& spec_alloc_pages_addr(m0) + 4096 * spec_page_count(image_len as int) <= m0.end
            &&& m0.end <= PADDR_LIMIT
        }),
    ensures
        final(pt).wf(),
        final(pt).base == old(pt).base,
        final(pt).base + 4096 * final(pt).table_count() <= old(pt).base + 4096 * (old(
            pt,
        ).table_count() + 2 * spec_page_count(image_len as int)),
        ({
            let m0 = old(allocator).mutable.unwrap();
            let u0 = spec_alloc_pages_addr(m0);
            let up = spec_page_count(image_len as int);
            &&& forall|j: int|
                0 <= j < up ==> #[trigger] final(pt).lookup((USER_BASE + 4096 * j) as u64) == Some(
                    PTE::spec_leaf((u0 + 4096 * j) as u64, spec_user_all()),
                )
            &&& forall|va: u64|
                !(USER_BASE <= vpn_base(va) < USER_BASE + 4096 * up) ==> final(pt).lookup(va)
                    == old(pt).lookup(va)
            &&& (up == 0 ==> *final(allocator) == *old(allocator))
            &&& (up > 0 ==> final(allocator).mutable == Some(
                AllocState { next: (u0 + 4096 * up) as u64, end: m0.end },
            ))
        }),
{
    let ghost m0 = old(allocator).mutable.unwrap();
    let ghost u0 = spec_alloc_pages_addr(m0);
    let ghost up = spec_page_count(image_len as int);
    let mut offset: u64 = 0;
    let ghost mut j: int = 0;
    while offset < image_len as u64
        invariant
            pt.wf(),
            pt.base == old(pt).base,
            m0 == old(allocator).mutable.unwrap(),
            u0 == spec_alloc_pages_addr(m0),
            up == spec_page_count(image_len as int),
            offset == 4096 * j,
            0 <= j <= up,
            USER_BASE + 4096 * up <= VADDR_END,
            forall|va: u64|
                USER_BASE <= vpn_base(va) < USER_BASE + 4096 * up ==> old(pt).lookup(va)
                    is None,
            u0 + 4096 * up <= m0.end <= PADDR_LIMIT,
            allocator.mutable is Some,
            allocator.mutable.unwrap().end == m0.end,
            spec_alloc_pages_addr(allocator.mutable.unwrap()) == u0 + 4096 * j,
            j == 0 ==> *allocator == *old(allocator),
            j > 0 ==> allocator.mutable == Some(
                AllocState { next: (u0 + 4096 * j) as u64, end: m0.end },
            ),
            pt.table_count() <= old(pt).table_count() + 2 * j,
            pt.base + 4096 * (pt.table_count() + 2 * (up - j)) <= PADDR_LIMIT,
            forall|jj: int|
                0 <= jj < j ==> #[trigger] pt.lookup((USER_BASE + 4096 * jj) as u64) == Some(
                    PTE::spec_leaf((u0 + 4096 * jj) as u64, spec_user_all()),
                ),
            forall|va: u64|
                !(USER_BASE <= vpn_base(va) < USER_BASE + offset) ==> pt.lookup(va) == old(
                    pt,
                ).lookup(va),
        decreases up - j,
    {
        proof {
            // still inside the image: one more page is owed
            lemma_div_multiples_vanish(j, 4096);
            lemma_div_plus_one((image_len as u64 - 1) as int, 4096);
            lemma_div_is_ordered(4096 * j, image_len as int - 1, 4096);
            assert(j < up);
        }
        let frame = alloc_pages(allocator, 1);
        let va = USER_BASE + offset;
        proof {
            assert(spec_is_aligned(va)) by {
                assert((USER_BASE as u64 + 4096 * (j as u64)) % 4096 == 0) by (nonlinear_arith)
                    requires
                        0 <= j < 0x1000_0000_0000,
                ;
            }
            lemma_vpn_base_of_aligned(va);
            assert(USER_BASE <= vpn_base(va) < USER_BASE + 4096 * up);
            assert(pt.lookup(va) == old(pt).lookup(va));
            assert(old(pt).lookup(va) is None);
            assert(frame.0 + 4096 <= m0.end);
        }
        pt.map_page(Vaddr(va), Paddr(frame.0), PageFlags::all());
        proof {
            assert forall|jj: int|
                0 <= jj < j + 1 implies #[trigger] pt.lookup((USER_BASE + 4096 * jj) as u64)
                == Some(PTE::spec_leaf((u0 + 4096 * jj) as u64, spec_user_all())) by {
                let vjj = (USER_BASE + 4096 * jj) as u64;
                lemma_same_vpn_iff(vjj, va);
                if jj < j {
                    lemma_vpn_base_of_aligned(vjj);
                }
            }
            assert forall|va2: u64|
                !(USER_BASE <= vpn_base(va2) < USER_BASE + offset + 4096) implies pt.lookup(
                va2,
            ) == old(pt).lookup(va2) by {
                lemma_same_vpn_iff(va2, va);
            }
        }
        offset = offset + 4096;
        proof {
            j = j + 1;
        }
    }
    proof {
        // the loop covered every page of the image
        if j < up {
            lemma_div_multiples_vanish(j, 4096);
            vstd::arithmetic::div_mod::lemma_div_multiples_vanish_fancy(j, 4095, 4096);
            lemma_div_is_ordered(image_len as int + 4095, 4096 * j + 4095, 4096);
            assert(false);
        }
        assert forall|va: u64|
            !(USER_BASE <= vpn_base(va) < USER_BASE + 4096 * up) implies pt.lookup(va) == old(
            pt,
        ).lookup(va) by {
        }
    }
}

/// The scheduler never hands control to the idle process while some
/// non-idle process exists, and it picks processes in round-robin order:
/// the chosen slot is runnable, and no runnable slot lies cyclically
/// between the current one and it.
pub proof fn lemma_round_robin(s: Scheduler, j: int)
    requires
        s.wf(),
        0 <= j < 8,
        s.runnable_at(j),
    ensures
        s.spec_next_offset(1) is Some,
        ({
            let k = s.spec_next_offset(1).unwrap();
            let n = (s.current.0 + k) % 8;
            &&& s.spec_find_next() == Some(n)
            &&& 1 <= k <= 8
            &&& 0 < n < 8
            &&& s.runnable_at(n)
            &&& forall|l: int| 1 <= l < k ==> !(#[trigger] s.runnable_at((s.current.0 + l) % 8))
        }),
{
    s.lemma_runnable_found(j);
    let k = s.spec_next_offset(1).unwrap();
    s.lemma_next_offset_found(1, k);
    let n = (s.current.0 as int + k) % 8;
    assert(0 <= n < 8) by (nonlinear_arith)
        requires
            0 <= s.current.0 < 8 && 1 <= k <= 8 && n == (s.current.0 as int + k) % 8,
    ;
    assert(s.runnable_at(n));
    assert(n != 0);
}

/// The cyclic distance from slot `a` forward to slot `b`: how many yields
/// of offset one would pass from one to the other, in `1..=8`.
pub open spec fn cyc_dist(a: int, b: int) -> int {
    if b > a {
        b - a
    } else {
        b - a + 8
    }
}

/// The scheduler after one yield: only the current identifier moves, to
/// the slot the scan picks.
pub open spec fn spec_after_yield(s: Scheduler) -> Scheduler
    recommends
        s.spec_find_next() is Some,
{
    Scheduler { current: Pid(s.spec_find_next().unwrap() as usize), ..s }
}

/// The scheduler after `m` yields.
pub open spec fn spec_after_yields(s: Scheduler, m: int) -> Scheduler
    decreases m,
{
    if m <= 0 {
        s
    } else {
        spec_after_yields(spec_after_yield(s), m - 1)
    }
}

/// One yield either lands on a runnable slot `j` or moves strictly closer
/// to it in cycle order, without touching the table.
proof fn lemma_yield_step(s: Scheduler, j: int)
    requires
        s.wf(),
        0 <= j < 8,
        s.runnable_at(j),
        j != s.current.0,
    ensures
        s.spec_next_offset(1) is Some,
        spec_after_yield(s).wf(),
        spec_after_yield(s).procs@ == s.procs@,
        spec_after_yield(s).current.0 < 8,
        spec_after_yield(s).current.0 == j || cyc_dist(
            spec_after_yield(s).current.0 as int,
            j,
        ) < cyc_dist(s.current.0 as int, j),
{
    s.lemma_runnable_found(j);
    let k = s.spec_next_offset(1).unwrap();
    s.lemma_next_offset_found(1, k);
    let cur = s.current.0 as int;
    let d = cyc_dist(cur, j);
    assert(1 <= d <= 7);
    assert((cur + d) % 8 == j) by (nonlinear_arith)
        requires
            0 <= j < 8 && 0 <= cur < 8 && j != cur && d == cyc_dist(cur, j),
    ;
    // slot j sits at offset d, so the scan stops at or before d
    assert(k <= d);
    let n = (cur + k) % 8;
    assert(0 <= n < 8) by (nonlinear_arith)
        requires
            0 <= cur < 8 && 1 <= k <= 8 && n == (cur + k) % 8,
    ;
    assert(spec_after_yield(s).current.0 == n);
    if n != j {
        assert(k != d);
        assert(cyc_dist(n, j) == d - k) by (nonlinear_arith)
            requires
                0 <= j < 8 && 0 <= cur < 8 && 0 <= n < 8 && 1 <= k < d <= 7 && n == (cur + k)
                    % 8 && j == (cur + d) % 8,
        ;
    }
}

/// Within at most `cyc_dist` yields the scheduler is running slot `j`.
proof fn lemma_yields_reach_aux(s: Scheduler, j: int)
    requires
        s.wf(),
        0 <= j < 8,
        s.runnable_at(j),
        j != s.current.0,
    ensures
        exists|m: int|
            1 <= m <= cyc_dist(s.current.0 as int, j) && (#[trigger] spec_after_yields(
                s,
                m,
            )).current.0 == j,
    decreases cyc_dist(s.current.0 as int, j),
{
    lemma_yield_step(s, j);
    let s2 = spec_after_yield(s);
    assert(spec_after_yields(s, 1) == spec_after_yields(s2, 0));
    if s2.current.0 == j {
        assert(spec_after_yields(s, 1).current.0 == j);
    } else {
        lemma_yields_reach_aux(s2, j);
        let m2 = choose|m2: int|
            1 <= m2 <= cyc_dist(s2.current.0 as int, j) && (#[trigger] spec_after_yields(
                s2,
                m2,
            )).current.0 == j;
        assert(spec_after_yields(s, m2 + 1) == spec_after_yields(s2, m2));
    }
}

/// Repeated yields visit every non-idle process: from any state, a
/// runnable slot `j` is the running process after at most eight yields.
/// Together with `lemma_round_robin` — each single yield picks the first
/// runnable slot after the current one and never idle — this is the
/// round-robin guarantee.
pub proof fn lemma_yields_visit_every(s: Scheduler, j: int)
    requires
        s.wf(),
        0 <= j < 8,
        s.runnable_at(j),
    ensures
        exists|m: int|
            0 <= m <= 8 && (#[trigger] spec_after_yields(s, m)).current.0 == j,
{
    if j == s.current.0 {
        assert(spec_after_yields(s, 0).current.0 == j);
    } else {
        lemma_yields_reach_aux(s, j);
        let m = choose|m: int|
            1 <= m <= cyc_dist(s.current.0 as int, j) && (#[trigger] spec_after_yields(
                s,
                m,
            )).current.0 == j;
        assert(spec_after_yields(s, m).current.0 == j);
    }
}

} // verus!
