//! Sv39 paging: virtual and physical addresses, page-table entries, and the
//! three-level page-table structure with its walker.
//!
//! A page-table entry is a 64-bit word:
//!
//! ```text
//! 63           54 53        28 27        19 18        10 9   8 7 6 5 4 3 2 1 0
//! +---------------+------------+------------+------------+-----+-+-+-+-+-+-+-+-+
//! |    Reserved   | PPN[2]     | PPN[1]     | PPN[0]     | RSW |D|A|G|U|X|W|R|V|
//! +---------------+------------+------------+------------+-----+-+-+-+-+-+-+-+-+
//! ```
//!
//! A virtual address splits into three 9-bit table indices and a 12-bit page
//! offset; the physical frame behind a valid entry is `(pte >> 10) << 12`.

use vstd::prelude::*;

verus! {

/// Bytes in one page and in one page frame.
pub const PAGE_SIZE: usize = 4096;

/// One past the largest physical address the PPN field of an entry can carry
/// (the field spans bits 53:10, so 44 bits of frame number).
pub const PADDR_LIMIT: u64 = 0x100_0000_0000_0000;

/// A physical address: a byte of physical memory.
#[derive(Debug, Clone, Copy, PartialEq, Eq, Structural)]
pub struct Paddr(pub u64);

/// A virtual address in the Sv39 paging scheme.
#[derive(Debug, Clone, Copy, PartialEq, Eq, Structural)]
pub struct Vaddr(pub u64);

/// Is `value` a multiple of the page size?
pub open spec fn spec_is_aligned(value: u64) -> bool {
    value % 4096 == 0
}

/// Is `value` a multiple of the page size?
pub fn is_aligned(value: u64) -> (b: bool)
    ensures
        b == spec_is_aligned(value),
{
    value % 4096 == 0
}

impl Vaddr {
    /// The page-table index this address selects at `level` (0 is the leaf
    /// level; the root table is level 2).
    pub open spec fn spec_pt_index(self, level: nat) -> u64 {
        (self.0 >> (12 + level * 9)) & 0x1FF
    }

    /// The raw 64-bit value of the address.
    pub fn as_number(self) -> (n: u64)
        ensures
            n == self.0,
    {
        self.0
    }

    /// Is the address page-aligned (low 12 bits zero)?
    pub fn is_aligned(self) -> (b: bool)
        ensures
            b == spec_is_aligned(self.0),
    {
        proof {
            let v = self.0;
            assert((v & 0xFFF == 0) == (v % 4096 == 0)) by (bit_vector);
        }
        (self.0 & 0xFFF) == 0
    }

    /// The 9-bit table index for `level`; the shift must stay inside the word.
    pub fn pt_index_for_level(self, level: usize) -> (idx: usize)
        requires
            level <= 5,
        ensures
            idx == self.spec_pt_index(level as nat),
            idx < 512,
    {
        proof {
            let v = self.0;
            let sh = (12 + level * 9) as u64;
            assert(sh <= 57 && (v >> sh) & 0x1FF < 512) by (bit_vector)
                requires
                    sh <= 57,
            ;
        }
        ((self.0 >> (12 + level * 9) as u64) & 0x1FF) as usize
    }
}

/// A page-table entry.
#[derive(Debug, Clone, Copy, PartialEq, Eq, Structural)]
pub struct PTE(pub u64);

impl PTE {
    /// The word of a valid leaf entry for frame `paddr` with `flags`.
    pub open spec fn spec_leaf(paddr: u64, flags: PageFlags) -> u64 {
        ((paddr >> 12) << 10) | flags.spec_as_raw() | 1
    }

    /// The physical address of the frame this entry points at.
    pub open spec fn spec_into_paddr(self) -> u64 {
        (self.0 >> 10) << 12
    }

    /// Compose an entry from its three physical-page-number fields and its
    /// low flag bits.
    pub fn new(ppn_2: u32, ppn_1: u32, ppn_0: u32, flags: u16) -> (r: PTE)
        ensures
            r.0 == ((ppn_2 as u64) << 28) | ((ppn_1 as u64) << 19) | ((ppn_0 as u64) << 10)
                | (flags as u64),
    {
        PTE(
            ((ppn_2 as u64) << 28) | ((ppn_1 as u64) << 19) | ((ppn_0 as u64) << 10)
                | (flags as u64),
        )
    }

    /// The all-zero (invalid) entry.
    pub fn zero() -> (r: PTE)
        ensures
            r.0 == 0,
    {
        PTE(0)
    }

    /// The physical address of the table or leaf frame this entry points at.
    pub fn into_paddr(self) -> (r: Paddr)
        ensures
            r.0 == (self.0 >> 10) << 12,
    {
        Paddr((self.0 >> 10) << 12)
    }

    /// An entry whose PPN fields address `paddr`, with all flag bits clear.
    pub fn from_paddr(paddr: Paddr) -> (r: PTE)
        ensures
            r.0 == (paddr.0 >> 12) << 10,
    {
        PTE((paddr.0 >> 12) << 10)
    }

    /// PPN[0]: bits 18:10.
    pub fn ppn_0(self) -> (r: u32)
        ensures
            r == (self.0 >> 10) & 0x1FF,
    {
        proof {
            let v = self.0;
            assert((v >> 10) & 0x1FF <= 0x1FF) by (bit_vector);
        }
        ((self.0 >> 10) & 0x1FF) as u32
    }

    /// PPN[1]: bits 27:19.
    pub fn ppn_1(self) -> (r: u32)
        ensures
            r == (self.0 >> 19) & 0x1FF,
    {
        proof {
            let v = self.0;
            assert((v >> 19) & 0x1FF <= 0x1FF) by (bit_vector);
        }
        ((self.0 >> 19) & 0x1FF) as u32
    }

    /// PPN[2]: bits 53:28.
    pub fn ppn_2(self) -> (r: u32)
        ensures
            r == (self.0 >> 28) & 0x3FF_FFFF,
    {
        proof {
            let v = self.0;
            assert((v >> 28) & 0x3FF_FFFF <= 0x3FF_FFFF) by (bit_vector);
        }
        ((self.0 >> 28) & 0x3FF_FFFF) as u32
    }

    /// The V bit: does the hardware consider this entry present?
    pub fn valid(self) -> (b: bool)
        ensures
            b == (self.0 & 1 != 0),
    {
        (self.0 & 1) != 0
    }

    /// The entry with the V bit set.
    pub fn set_valid(self) -> (r: PTE)
        ensures
            r.0 == self.0 | 1,
    {
        PTE(self.0 | 1)
    }

    /// The R bit.
    pub fn read(self) -> (b: bool)
        ensures
            b == (self.0 & 2 != 0),
    {
        (self.0 & 2) != 0
    }

    /// The W bit.
    pub fn write(self) -> (b: bool)
        ensures
            b == (self.0 & 4 != 0),
    {
        (self.0 & 4) != 0
    }

    /// The X bit.
    pub fn x(self) -> (b: bool)
        ensures
            b == (self.0 & 8 != 0),
    {
        (self.0 & 8) != 0
    }

    /// The U bit.
    pub fn u(self) -> (b: bool)
        ensures
            b == (self.0 & 16 != 0),
    {
        (self.0 & 16) != 0
    }

    /// The entry with the permission bits of `flags` OR-ed in.
    pub fn with_flags(self, flags: PageFlags) -> (r: PTE)
        ensures
            r.0 == self.0 | flags.spec_as_raw(),
    {
        PTE(self.0 | flags.as_raw())
    }
}

/// The four independent permission bits a mapping can carry.
#[derive(Debug, Clone, Copy, PartialEq, Eq, Structural)]
pub struct PageFlags {
    pub read: bool,
    pub write: bool,
    pub execute: bool,
    pub user: bool,
}

impl Default for PageFlags {
    /// All permission bits clear.
    fn default() -> (r: Self)
        ensures
            r == (PageFlags { read: false, write: false, execute: false, user: false }),
    {
        PageFlags { read: false, write: false, execute: false, user: false }
    }
}

impl PageFlags {
    /// The flag word as it sits in a page-table entry: R at bit 1, W at
    /// bit 2, X at bit 3, U at bit 4.
    pub open spec fn spec_as_raw(self) -> u64 {
        (if self.read { 2u64 } else { 0 }) | (if self.write { 4u64 } else { 0 })
            | (if self.execute { 8u64 } else { 0 }) | (if self.user { 16u64 } else { 0 })
    }

    /// The preset for kernel mappings: read, write and execute.
    pub fn kernel_all() -> (r: Self)
        ensures
            r == (PageFlags { read: true, write: true, execute: true, user: false }),
    {
        PageFlags::default().read().write().execute()
    }

    /// The preset for user mappings: read, write, execute and user.
    pub fn all() -> (r: Self)
        ensures
            r == (PageFlags { read: true, write: true, execute: true, user: true }),
    {
        PageFlags::default().read().write().execute().user()
    }

    /// The flags with the R bit set.
    pub fn read(self) -> (r: Self)
        ensures
            r == (PageFlags { read: true, ..self }),
    {
        PageFlags { read: true, ..self }
    }

    /// The flags with the W bit set.
    pub fn write(self) -> (r: Self)
        ensures
            r == (PageFlags { write: true, ..self }),
    {
        PageFlags { write: true, ..self }
    }

    /// The flags with the X bit set.
    pub fn execute(self) -> (r: Self)
        ensures
            r == (PageFlags { execute: true, ..self }),
    {
        PageFlags { execute: true, ..self }
    }

    /// The flags with the U bit set.
    pub fn user(self) -> (r: Self)
        ensures
            r == (PageFlags { user: true, ..self }),
    {
        PageFlags { user: true, ..self }
    }

    /// The flag word of the entry bits this carrier selects.
    pub fn as_raw(self) -> (r: u64)
        ensures
            r == self.spec_as_raw(),
    {
        (if self.read { 2u64 } else { 0 }) | (if self.write { 4u64 } else { 0 })
            | (if self.execute { 8u64 } else { 0 }) | (if self.user { 16u64 } else { 0 })
    }
}

/// The leaf-level table index of `va` (bits 20:12).
pub open spec fn l0_index(va: u64) -> int {
    ((va >> 12) & 0x1FF) as int
}

/// The middle-level table index of `va` (bits 29:21).
pub open spec fn l1_index(va: u64) -> int {
    ((va >> 21) & 0x1FF) as int
}

/// The root-level table index of `va` (bits 38:30).
pub open spec fn l2_index(va: u64) -> int {
    ((va >> 30) & 0x1FF) as int
}

/// Do two virtual addresses select the same leaf slot, that is, share all
/// three table indices?
pub open spec fn same_vpn(a: u64, b: u64) -> bool {
    l2_index(a) == l2_index(b) && l1_index(a) == l1_index(b) && l0_index(a) == l0_index(b)
}

/// The virtual page number bits of `va` (bits 38:12), the part of an
/// address the walk looks at.
pub open spec fn vpn_base(va: u64) -> u64 {
    va & 0x7F_FFFF_F000
}

/// Two addresses walk to the same slot exactly when their page number bits
/// agree.
pub proof fn lemma_same_vpn_iff(a: u64, b: u64)
    ensures
        same_vpn(a, b) <==> vpn_base(a) == vpn_base(b),
{
    assert(((a >> 30) & 0x1FF == (b >> 30) & 0x1FF && (a >> 21) & 0x1FF == (b >> 21) & 0x1FF
        && (a >> 12) & 0x1FF == (b >> 12) & 0x1FF) <==> (a & 0x7F_FFFF_F000) == (b
        & 0x7F_FFFF_F000)) by (bit_vector);
}

/// A page number base is itself page-aligned.
pub proof fn lemma_vpn_base_aligned(va: u64)
    ensures
        vpn_base(va) % 4096 == 0,
{
    assert((va & 0x7F_FFFF_F000) % 4096 == 0) by (bit_vector);
}

/// Two distinct page-aligned values lie at least a page apart.
pub proof fn lemma_aligned_step(a: u64, b: u64)
    requires
        a % 4096 == 0,
        b % 4096 == 0,
        a < b,
    ensures
        a + 4096 <= b,
{
    assert(a % 4096 == 0 && b % 4096 == 0 && a < b ==> a + 4096 <= b) by (bit_vector);
}

/// An aligned address below the Sv39 hole is its own page number base.
pub proof fn lemma_vpn_base_of_aligned(va: u64)
    requires
        va % 4096 == 0,
        va < 0x40_0000_0000,
    ensures
        vpn_base(va) == va,
{
    assert(va % 4096 == 0 && va < 0x40_0000_0000 ==> (va & 0x7F_FFFF_F000) == va)
        by (bit_vector);
}

/// Does the entry word have its V bit set?
pub open spec fn entry_is_valid(e: u64) -> bool {
    e & 1 == 1
}

/// The word of a non-leaf entry pointing at table frame `c` of a pool that
/// starts at `base`: the frame's PPN in bits 53:10, V set, permissions clear.
pub open spec fn spec_ptr_word(base: u64, c: int) -> u64 {
    ((((base + 4096 * c) as u64) >> 12) << 10) | 1
}

/// The PPN round trip behind `spec_ptr_word`: for an aligned frame address
/// below `PADDR_LIMIT` the pointed-at frame is recovered exactly.
proof fn lemma_ptr_word_props(base: u64, c: int)
    requires
        base % 4096 == 0,
        0 <= c,
        base + 4096 * c < PADDR_LIMIT,
    ensures
        ({
            let w = spec_ptr_word(base, c);
            &&& w & 1 == 1
            &&& (w >> 10) << 12 == base + 4096 * c
        }),
{
    let p = (base + 4096 * c) as u64;
    assert(p % 4096 == 0) by {
        assert((base + 4096 * c) % 4096 == 0) by {
            vstd::arithmetic::div_mod::lemma_add_mod_noop(base as int, 4096 * c, 4096);
            vstd::arithmetic::div_mod::lemma_mod_multiples_basic(c, 4096);
        }
    }
    assert(((p >> 12) << 10 | 1) & 1 == 1 && (((p >> 12) << 10 | 1) >> 10) << 12 == p)
        by (bit_vector)
        requires
            p % 4096 == 0 && p < 0x100_0000_0000_0000,
    ;
}

/// A three-level Sv39 page-table tree for one address space.
///
/// The tree owns the frames its tables live in: table `t` occupies the
/// physical frame at `base + 4096 * t`, and table 0 is the root the hardware
/// is pointed at. Entries of non-leaf tables are either zero or point at
/// another table of the same pool; entries of leaf tables are the mappings.
pub struct PageTables {
    /// Physical address of the pool's first frame.
    pub base: u64,
    /// The table frames, 512 entries each; index 0 is the root.
    pub tables: Vec<Vec<u64>>,
    /// The level of each table: 2 for the root, 0 for leaf tables.
    pub levels: Ghost<Seq<nat>>,
}

impl PageTables {
    /// The entry word at slot `i` of table `t`.
    pub open spec fn entry(self, t: int, i: int) -> u64 {
        self.tables@[t]@[i]
    }

    /// How many tables the pool holds.
    pub open spec fn table_count(self) -> int {
        self.tables@.len() as int
    }

    /// The pool index of the table a non-leaf entry word points at.
    pub open spec fn child_index(self, e: u64) -> int {
        (((e >> 10) << 12) - self.base) / 4096
    }

    /// Slot `(t, i)` holds a valid non-leaf pointer.
    pub open spec fn ptr_at(self, t: int, i: int) -> bool {
        &&& 0 <= t < self.table_count()
        &&& 0 <= i < 512
        &&& self.levels@[t] >= 1
        &&& entry_is_valid(self.entry(t, i))
    }

    /// A valid entry of a non-leaf table is exactly a pointer into the pool,
    /// one level down.
    pub open spec fn ptr_entry_ok(self, t: int, i: int) -> bool {
        entry_is_valid(self.entry(t, i)) ==> {
            let c = self.child_index(self.entry(t, i));
            &&& 0 < c < self.table_count()
            &&& self.entry(t, i) == spec_ptr_word(self.base, c)
            &&& self.levels@[c] + 1 == self.levels@[t]
        }
    }

    /// Well-formedness of the tree.
    pub open spec fn wf(self) -> bool {
        &&& 1 <= self.table_count()
        &&& self.levels@.len() == self.table_count()
        &&& self.levels@[0] == 2
        &&& self.base % 4096 == 0
        &&& self.base + 4096 * self.table_count() <= PADDR_LIMIT
        &&& forall|t: int|
            0 <= t < self.table_count() ==> (#[trigger] self.tables@[t])@.len() == 512
        &&& forall|t: int|
            0 <= t < self.table_count() ==> (#[trigger] self.levels@[t]) <= 2
        &&& forall|t: int| 0 < t < self.table_count() ==> (#[trigger] self.levels@[t]) <= 1
        &&& forall|t: int, i: int|
            0 <= t < self.table_count() && 0 <= i < 512 && self.levels@[t] >= 1
                ==> #[trigger] self.ptr_entry_ok(t, i)
        &&& forall|t1: int, i1: int, t2: int, i2: int|
            #[trigger] self.ptr_at(t1, i1) && #[trigger] self.ptr_at(t2, i2)
                && self.child_index(self.entry(t1, i1)) == self.child_index(self.entry(t2, i2))
                ==> t1 == t2 && i1 == i2
    }

    /// The leaf table and slot the walk for `va` reaches, if both non-leaf
    /// entries on the way are valid.
    pub open spec fn leaf_slot(self, va: u64) -> Option<(int, int)> {
        let e2 = self.entry(0, l2_index(va));
        if !entry_is_valid(e2) {
            None
        } else {
            let t1 = self.child_index(e2);
            let e1 = self.entry(t1, l1_index(va));
            if !entry_is_valid(e1) {
                None
            } else {
                Some((self.child_index(e1), l0_index(va)))
            }
        }
    }

    /// The valid leaf entry mapped for `va`, if any.
    pub open spec fn lookup(self, va: u64) -> Option<u64> {
        match self.leaf_slot(va) {
            None => None,
            Some((t, i)) => {
                let e = self.entry(t, i);
                if entry_is_valid(e) {
                    Some(e)
                } else {
                    None
                }
            },
        }
    }

    /// A fresh tree holding only an empty root table, whose pool starts at
    /// the page-aligned frame `base`.
    pub fn new(base: Paddr) -> (r: PageTables)
        requires
            base.0 % 4096 == 0,
            base.0 + 4096 <= PADDR_LIMIT,
        ensures
            r.wf(),
            r.base == base.0,
            r.table_count() == 1,
            forall|va: u64| r.lookup(va) is None,
    {
        let mut tables: Vec<Vec<u64>> = Vec::new();
        tables.push(zero_table());
        let ghost lv: Seq<nat> = seq![2nat];
        let r = PageTables { base: base.0, tables, levels: Ghost(lv) };
        proof {
            assert forall|va: u64| r.lookup(va) is None by {
                assert((va >> 30) & 0x1FF < 512) by (bit_vector);
                assert(r.entry(0, l2_index(va)) == 0);
                assert(!entry_is_valid(0u64)) by (bit_vector);
            }
            assert(forall|t: int, i: int|
                0 <= t < r.table_count() && 0 <= i < 512 && r.levels@[t] >= 1
                    ==> #[trigger] r.ptr_entry_ok(t, i)) by {
                assert(!entry_is_valid(0u64)) by (bit_vector);
            }
            assert(forall|t1: int, i1: int| !r.ptr_at(t1, i1)) by {
                assert(!entry_is_valid(0u64)) by (bit_vector);
            }
        }
        r
    }

    /// Follow the entry at slot `i` of non-leaf table `t` one level down;
    /// when it is empty and `alloc` is set, install a pointer to a fresh
    /// zeroed table first. No mapping changes either way.
    fn walk_step(&mut self, t: usize, i: usize, alloc: bool) -> (r: Option<usize>)
        requires
            old(self).wf(),
            t < old(self).table_count(),
            old(self).levels@[t as int] >= 1,
            i < 512,
            alloc ==> old(self).base + 4096 * (old(self).table_count() + 1) <= PADDR_LIMIT,
        ensures
            final(self).wf(),
            final(self).base == old(self).base,
            old(self).table_count() <= final(self).table_count()
                <= old(self).table_count() + 1,
            old(self).levels@.is_prefix_of(final(self).levels@),
            forall|t2: int, j: int|
                0 <= t2 < old(self).table_count() && 0 <= j < 512 && !(t2 == t && j == i)
                    ==> final(self).entry(t2, j) == old(self).entry(t2, j),
            entry_is_valid(old(self).entry(t as int, i as int)) ==> *final(self) == *old(self),
            !alloc ==> *final(self) == *old(self),
            r is Some <==> (alloc || entry_is_valid(old(self).entry(t as int, i as int))),
            r matches Some(c) ==> {
                &&& c < final(self).table_count()
                &&& entry_is_valid(final(self).entry(t as int, i as int))
                &&& final(self).child_index(final(self).entry(t as int, i as int)) == c as int
                &&& final(self).levels@[c as int] + 1 == old(self).levels@[t as int]
                &&& final(self).tables@[c as int]@.len() == 512
            },
            forall|va: u64| final(self).lookup(va) == old(self).lookup(va),
    {
        let e = self.tables[t][i];
        if e & 1 == 1 {
            let ghost c_spec = self.child_index(e);
            proof {
                assert(self.ptr_entry_ok(t as int, i as int));
                assert(e == spec_ptr_word(self.base, c_spec));
                assert(self.base + 4096 * c_spec < self.base + 4096 * self.table_count());
                lemma_ptr_word_props(self.base, c_spec);
                assert((e >> 10) << 12 == self.base + 4096 * c_spec);
                vstd::arithmetic::div_mod::lemma_div_multiples_vanish(c_spec, 4096);
                assert((4096 * c_spec) / 4096 == c_spec);
                assert(c_spec < self.tables@.len());
            }
            let paddr = (e >> 10) << 12;
            let n = self.tables.len();
            proof {
                assert(c_spec < n);
            }
            let c = ((paddr - self.base) / 4096) as usize;
            proof {
                assert(c == c_spec);
            }
            Some(c)
        } else if alloc {
            proof {
                assert(!entry_is_valid(e)) by (bit_vector)
                    requires
                        e & 1 != 1,
                ;
            }
            let c = self.tables.len();
            self.tables.push(zero_table());
            let ghost child_level = (old(self).levels@[t as int] - 1) as nat;
            proof {
                self.levels@ = self.levels@.push(child_level);
            }
            let word = (((self.base + (c as u64) * 4096) >> 12) << 10) | 1;
            proof {
                lemma_ptr_word_props(self.base, c as int);
                vstd::arithmetic::div_mod::lemma_div_multiples_vanish(c as int, 4096);
            }
            let row = &mut self.tables[t];
            row[i] = word;
            proof {
                self.lemma_step_alloc_ok(*old(self), t as int, i as int, c as int);
            }
            Some(c)
        } else {
            None
        }
    }

    /// Descend from the root to the leaf table for `vaddr`, allocating the
    /// two intermediate tables on the way when `alloc` is set. Returns the
    /// leaf table and the slot index inside it.
    fn walk(&mut self, vaddr: Vaddr, alloc: bool) -> (r: Option<(usize, usize)>)
        requires
            old(self).wf(),
            alloc ==> old(self).base + 4096 * (old(self).table_count() + 2) <= PADDR_LIMIT,
        ensures
            final(self).wf(),
            final(self).base == old(self).base,
            old(self).table_count() <= final(self).table_count()
                <= old(self).table_count() + 2,
            forall|va: u64| final(self).lookup(va) == old(self).lookup(va),
            !alloc ==> *final(self) == *old(self),
            alloc ==> r is Some,
            !alloc ==> (r is Some <==> old(self).leaf_slot(vaddr.0) is Some),
            r matches Some((t, i)) ==> {
                &&& final(self).leaf_slot(vaddr.0) == Some((t as int, i as int))
                &&& t < final(self).table_count()
                &&& final(self).levels@[t as int] == 0
                &&& i < 512
                &&& final(self).tables@[t as int]@.len() == 512
            },
    {
        let i2 = vaddr.pt_index_for_level(2);
        let i1 = vaddr.pt_index_for_level(1);
        let i0 = vaddr.pt_index_for_level(0);
        proof {
            let v = vaddr.0;
            assert((v >> (12 + 2 * 9) as u64) & 0x1FF == (v >> 30) & 0x1FF && (v >> (12 + 1
                * 9) as u64) & 0x1FF == (v >> 21) & 0x1FF && (v >> (12 + 0 * 9) as u64) & 0x1FF
                == (v >> 12) & 0x1FF) by (bit_vector);
            assert(i2 as int == l2_index(vaddr.0) && i1 as int == l1_index(vaddr.0)
                && i0 as int == l0_index(vaddr.0));
        }
        let t1 = match self.walk_step(0, i2, alloc) {
            Some(c) => c,
            None => {
                return None;
            },
        };
        let ghost mid = *self;
        let t0 = match self.walk_step(t1, i1, alloc) {
            Some(c) => c,
            None => {
                return None;
            },
        };
        proof {
            // the root entry followed first is still in place: the second
            // step only touched slot (t1, i1), and t1 is not the root
            assert(self.entry(0, i2 as int) == mid.entry(0, i2 as int));
            assert(self.leaf_slot(vaddr.0) == Some((t0 as int, i0 as int)));
        }
        Some((t0, i0))
    }

    /// Install the mapping `vaddr -> paddr` with `flags` in the tree.
    ///
    /// Both addresses must be page-aligned and the page must not already be
    /// mapped, as the kernel treats a remap or a misaligned address as a
    /// programmer error. Afterwards `vaddr` resolves to a valid leaf entry
    /// carrying exactly the frame `paddr` and the permission bits of
    /// `flags`, and no other page resolves differently than before.
    pub fn map_page(&mut self, vaddr: Vaddr, paddr: Paddr, flags: PageFlags)
        requires
            old(self).wf(),
            spec_is_aligned(vaddr.0),
            spec_is_aligned(paddr.0),
            paddr.0 < PADDR_LIMIT,
            old(self).lookup(vaddr.0) is None,
            old(self).base + 4096 * (old(self).table_count() + 2) <= PADDR_LIMIT,
        ensures
            final(self).wf(),
            final(self).base == old(self).base,
            old(self).table_count() <= final(self).table_count()
                <= old(self).table_count() + 2,
            final(self).lookup(vaddr.0) == Some(PTE::spec_leaf(paddr.0, flags)),
            forall|va: u64|
                !same_vpn(va, vaddr.0) ==> final(self).lookup(va) == old(self).lookup(va),
    {
        let slot = self.walk(vaddr, true);
        let (t, i) = match slot {
            Some(pair) => pair,
            None => {
                proof {
                    assert(false);
                }
                (0, 0)
            },
        };
        let ghost mid = *self;
        let word = ((paddr.0 >> 12) << 10) | flags.as_raw() | 1;
        proof {
            let p = paddr.0;
            let fr = flags.spec_as_raw();
            assert(((((p >> 12) << 10) | fr) | 1) & 1 == 1) by (bit_vector);
            assert(word == PTE::spec_leaf(paddr.0, flags));
            assert(entry_is_valid(word));
        }
        let row = &mut self.tables[t];
        row[i] = word;
        proof {
            self.lemma_map_leaf_ok(mid, vaddr.0, t as int, i as int, word);
        }
    }

    /// Writing the leaf word `w` into leaf slot `(t, i)` keeps the tree well
    /// formed, maps every address whose walk ends in that slot to `w`, and
    /// leaves every other address alone.
    proof fn lemma_map_leaf_ok(self, pre: PageTables, va0: u64, t: int, i: int, w: u64)
        requires
            pre.wf(),
            pre.leaf_slot(va0) == Some((t, i)),
            0 <= t < pre.table_count(),
            pre.levels@[t] == 0,
            0 <= i < 512,
            self.base == pre.base,
            self.levels@ == pre.levels@,
            self.tables@.len() == pre.tables@.len(),
            forall|t2: int|
                0 <= t2 < pre.table_count() && t2 != t
                    ==> (#[trigger] self.tables@[t2]) == pre.tables@[t2],
            self.tables@[t]@ == pre.tables@[t]@.update(i, w),
        ensures
            self.wf(),
            self.leaf_slot(va0) == Some((t, i)),
            entry_is_valid(w) ==> self.lookup(va0) == Some(w),
            forall|va: u64| !same_vpn(va, va0) ==> self.lookup(va) == pre.lookup(va),
    {
        assert(self.tables@[t]@.len() == 512);
        // Frame over entries.
        assert forall|t2: int, j: int|
            0 <= t2 < pre.table_count() && 0 <= j < 512 && !(t2 == t && j == i)
                implies self.entry(t2, j) == pre.entry(t2, j) by {
            if t2 == t {
                assert(self.tables@[t]@[j] == pre.tables@[t]@[j]);
            }
        }
        // Well-formedness: only a leaf-table slot changed, and neither the
        // pointer conditions nor the injectivity condition look at leaf
        // tables.
        assert forall|t2: int, i2: int|
            0 <= t2 < self.table_count() && 0 <= i2 < 512 && self.levels@[t2] >= 1
                implies #[trigger] self.ptr_entry_ok(t2, i2) by {
            assert(self.entry(t2, i2) == pre.entry(t2, i2));
            assert(pre.ptr_entry_ok(t2, i2));
        }
        assert forall|t1: int, i1: int, t2: int, i2: int|
            #[trigger] self.ptr_at(t1, i1) && #[trigger] self.ptr_at(t2, i2)
                && self.child_index(self.entry(t1, i1)) == self.child_index(self.entry(t2, i2))
                implies t1 == t2 && i1 == i2 by {
            assert(self.entry(t1, i1) == pre.entry(t1, i1));
            assert(self.entry(t2, i2) == pre.entry(t2, i2));
            assert(pre.ptr_at(t1, i1) && pre.ptr_at(t2, i2));
        }
        assert(self.wf());

        // The walk for va0 still ends in (t, i): its two pointer entries sit
        // in tables of level 2 and 1, while t has level 0.
        let e2 = pre.entry(0, l2_index(va0));
        let t1 = pre.child_index(e2);
        assert((va0 >> 30) & 0x1FF < 512 && (va0 >> 21) & 0x1FF < 512 && (va0 >> 12) & 0x1FF
            < 512) by (bit_vector);
        assert(pre.ptr_entry_ok(0, l2_index(va0)));
        assert(pre.ptr_entry_ok(t1, l1_index(va0)));
        assert(self.entry(0, l2_index(va0)) == e2);
        assert(self.entry(t1, l1_index(va0)) == pre.entry(t1, l1_index(va0)));
        assert(self.leaf_slot(va0) == Some((t, i)));
        assert(self.entry(t, i) == w);

        // Any address that resolves differently shares the slot, and through
        // injectivity the whole virtual page number.
        assert forall|va: u64| !same_vpn(va, va0) implies self.lookup(va) == pre.lookup(
            va,
        ) by {
            assert((va >> 30) & 0x1FF < 512 && (va >> 21) & 0x1FF < 512 && (va >> 12) & 0x1FF
                < 512) by (bit_vector);
            let e2b = pre.entry(0, l2_index(va));
            assert(self.entry(0, l2_index(va)) == e2b);
            if entry_is_valid(e2b) {
                assert(pre.ptr_entry_ok(0, l2_index(va)));
                let t1b = pre.child_index(e2b);
                assert(self.entry(t1b, l1_index(va)) == pre.entry(t1b, l1_index(va)));
                let e1b = pre.entry(t1b, l1_index(va));
                if entry_is_valid(e1b) {
                    assert(pre.ptr_entry_ok(t1b, l1_index(va)));
                    let t0b = pre.child_index(e1b);
                    if t0b == t && l0_index(va) == i {
                        // both walks end in slot (t, i): the two pointer
                        // chains coincide, so the page numbers coincide
                        assert(pre.ptr_at(t1b, l1_index(va)));
                        assert(pre.ptr_at(t1, l1_index(va0)));
                        assert(t1b == t1 && l1_index(va) == l1_index(va0));
                        assert(pre.ptr_at(0, l2_index(va)));
                        assert(pre.ptr_at(0, l2_index(va0)));
                        assert(l2_index(va) == l2_index(va0));
                        assert(l0_index(va) == l0_index(va0));
                        assert(false);
                    } else {
                        assert(self.entry(t0b, l0_index(va)) == pre.entry(t0b, l0_index(va)));
                    }
                }
            }
        }
    }

    /// The walk reads nothing of an address but its three table indices, so
    /// addresses with equal page number bits resolve alike.
    pub proof fn lemma_lookup_same_vpn(self, a: u64, b: u64)
        requires
            same_vpn(a, b),
        ensures
            self.leaf_slot(a) == self.leaf_slot(b),
            self.lookup(a) == self.lookup(b),
    {
    }

    /// The leaf entry the tree resolves `vaddr` to, if the page is mapped.
    pub fn lookup_pte(&self, vaddr: Vaddr) -> (r: Option<PTE>)
        requires
            self.wf(),
        ensures
            match r {
                Some(p) => self.lookup(vaddr.0) == Some(p.0),
                None => self.lookup(vaddr.0) is None,
            },
    {
        let i2 = vaddr.pt_index_for_level(2);
        let i1 = vaddr.pt_index_for_level(1);
        let i0 = vaddr.pt_index_for_level(0);
        proof {
            let v = vaddr.0;
            assert((v >> (12 + 2 * 9) as u64) & 0x1FF == (v >> 30) & 0x1FF && (v >> (12 + 1
                * 9) as u64) & 0x1FF == (v >> 21) & 0x1FF && (v >> (12 + 0 * 9) as u64) & 0x1FF
                == (v >> 12) & 0x1FF) by (bit_vector);
            assert(i2 as int == l2_index(vaddr.0) && i1 as int == l1_index(vaddr.0)
                && i0 as int == l0_index(vaddr.0));
        }
        let e2 = self.tables[0][i2];
        if e2 & 1 != 1 {
            proof {
                assert(!entry_is_valid(e2)) by (bit_vector)
                    requires
                        e2 & 1 != 1,
                ;
            }
            return None;
        }
        proof {
            assert(self.ptr_entry_ok(0, i2 as int));
            let c0 = self.child_index(e2);
            assert(self.base + 4096 * c0 < self.base + 4096 * self.table_count());
            lemma_ptr_word_props(self.base, c0);
            vstd::arithmetic::div_mod::lemma_div_multiples_vanish(c0, 4096);
            assert(c0 < self.tables@.len());
        }
        let n = self.tables.len();
        let t1 = ((((e2 >> 10) << 12) - self.base) / 4096) as usize;
        proof {
            assert(t1 as int == self.child_index(e2));
            assert(self.levels@[t1 as int] + 1 == self.levels@[0]);
        }
        let e1 = self.tables[t1][i1];
        if e1 & 1 != 1 {
            proof {
                assert(!entry_is_valid(e1)) by (bit_vector)
                    requires
                        e1 & 1 != 1,
                ;
            }
            return None;
        }
        proof {
            assert(self.ptr_entry_ok(t1 as int, i1 as int));
            let c1 = self.child_index(e1);
            assert(self.base + 4096 * c1 < self.base + 4096 * self.table_count());
            lemma_ptr_word_props(self.base, c1);
            vstd::arithmetic::div_mod::lemma_div_multiples_vanish(c1, 4096);
            assert(c1 < self.tables@.len());
        }
        let t0 = ((((e1 >> 10) << 12) - self.base) / 4096) as usize;
        proof {
            assert(t0 as int == self.child_index(e1));
        }
        let e0 = self.tables[t0][i0];
        if e0 & 1 == 1 {
            Some(PTE(e0))
        } else {
            proof {
                assert(!entry_is_valid(e0)) by (bit_vector)
                    requires
                        e0 & 1 != 1,
                ;
            }
            None
        }
    }

    /// Like `map_page`, but reports a misaligned address or an existing
    /// mapping as an error instead of requiring the caller to rule them out.
    /// Nothing changes unless `Ok` comes back.
    pub fn try_map_page(&mut self, vaddr: Vaddr, paddr: Paddr, flags: PageFlags) -> (r: Result<
        (),
        MapError,
    >)
        requires
            old(self).wf(),
            paddr.0 < PADDR_LIMIT,
            old(self).base + 4096 * (old(self).table_count() + 2) <= PADDR_LIMIT,
        ensures
            final(self).wf(),
            final(self).base == old(self).base,
            old(self).table_count() <= final(self).table_count()
                <= old(self).table_count() + 2,
            r matches Err(MapError::VaddrNotAligned) <==> !spec_is_aligned(vaddr.0),
            r matches Err(MapError::PaddrNotAligned) <==> (spec_is_aligned(vaddr.0)
                && !spec_is_aligned(paddr.0)),
            r matches Err(MapError::AlreadyMapped) <==> (spec_is_aligned(vaddr.0)
                && spec_is_aligned(paddr.0) && old(self).lookup(vaddr.0) is Some),
            r is Err ==> *final(self) == *old(self),
            r is Ok ==> {
                &&& old(self).lookup(vaddr.0) is None
                &&& final(self).lookup(vaddr.0) == Some(PTE::spec_leaf(paddr.0, flags))
                &&& forall|va: u64|
                    !same_vpn(va, vaddr.0) ==> final(self).lookup(va) == old(self).lookup(va)
            },
    {
        if !vaddr.is_aligned() {
            return Err(MapError::VaddrNotAligned);
        }
        if !is_aligned(paddr.0) {
            return Err(MapError::PaddrNotAligned);
        }
        if self.lookup_pte(vaddr).is_some() {
            return Err(MapError::AlreadyMapped);
        }
        self.map_page(vaddr, paddr, flags);
        Ok(())
    }
}

/// Why a mapping request was refused.
#[derive(Debug, Clone, Copy, PartialEq, Eq, Structural)]
pub enum MapError {
    /// The virtual address is not page-aligned.
    VaddrNotAligned,
    /// The physical address is not page-aligned.
    PaddrNotAligned,
    /// The walk found an already-valid leaf entry.
    AlreadyMapped,
}

impl PageTables {
    /// After an empty slot `(t, i)` of `pre` got a pointer to the freshly
    /// appended zeroed table `c`, the tree is still well formed and no
    /// address resolves differently.
    proof fn lemma_step_alloc_ok(self, pre: PageTables, t: int, i: int, c: int)
        requires
            pre.wf(),
            0 <= t < pre.table_count(),
            pre.levels@[t] >= 1,
            0 <= i < 512,
            !entry_is_valid(pre.entry(t, i)),
            pre.base + 4096 * (pre.table_count() + 1) <= PADDR_LIMIT,
            c == pre.table_count(),
            self.base == pre.base,
            self.table_count() == pre.table_count() + 1,
            self.levels@ == pre.levels@.push((pre.levels@[t] - 1) as nat),
            forall|j: int| 0 <= j < 512 ==> self.entry(c, j) == 0,
            self.tables@[c]@.len() == 512,
            forall|t2: int|
                0 <= t2 < pre.table_count() && t2 != t
                    ==> (#[trigger] self.tables@[t2]) == pre.tables@[t2],
            self.tables@[t]@ == pre.tables@[t]@.update(i, spec_ptr_word(pre.base, c)),
        ensures
            self.wf(),
            forall|va: u64| self.lookup(va) == pre.lookup(va),
            forall|t2: int, j: int|
                0 <= t2 < pre.table_count() && 0 <= j < 512 && !(t2 == t && j == i)
                    ==> self.entry(t2, j) == pre.entry(t2, j),
            entry_is_valid(self.entry(t, i)),
            self.child_index(self.entry(t, i)) == c,
            self.levels@[c] + 1 == pre.levels@[t],
    {
        let w = spec_ptr_word(pre.base, c);
        lemma_ptr_word_props(pre.base, c);
        vstd::arithmetic::div_mod::lemma_div_multiples_vanish(c, 4096);
        assert(entry_is_valid(w));
        assert(self.child_index(w) == c);
        assert(!entry_is_valid(0u64)) by (bit_vector);

        // Frame: every old slot except (t, i) reads as before.
        assert forall|t2: int, j: int|
            0 <= t2 < pre.table_count() && 0 <= j < 512 && !(t2 == t && j == i)
                implies self.entry(t2, j) == pre.entry(t2, j) by {
            if t2 == t {
                assert(self.tables@[t]@[j] == pre.tables@[t]@[j]);
            }
        }

        // Well-formedness.
        assert forall|t2: int|
            0 <= t2 < self.table_count() implies (#[trigger] self.tables@[t2])@.len()
                == 512 by {
            if t2 < pre.table_count() && t2 != t {
                assert(self.tables@[t2] == pre.tables@[t2]);
            }
        }
        assert forall|t2: int, i2: int|
            0 <= t2 < self.table_count() && 0 <= i2 < 512 && self.levels@[t2] >= 1
                implies #[trigger] self.ptr_entry_ok(t2, i2) by {
            if t2 == c {
                assert(self.entry(c, i2) == 0);
            } else if t2 == t && i2 == i {
                assert(self.entry(t, i) == w);
            } else {
                assert(self.entry(t2, i2) == pre.entry(t2, i2));
                assert(pre.ptr_entry_ok(t2, i2));
                if entry_is_valid(pre.entry(t2, i2)) {
                    let cc = pre.child_index(pre.entry(t2, i2));
                    assert(self.child_index(pre.entry(t2, i2)) == cc);
                }
            }
        }
        assert forall|t1: int, i1: int, t2: int, i2: int|
            #[trigger] self.ptr_at(t1, i1) && #[trigger] self.ptr_at(t2, i2)
                && self.child_index(self.entry(t1, i1)) == self.child_index(self.entry(t2, i2))
                implies t1 == t2 && i1 == i2 by {
            if t1 == c || t2 == c {
                // the fresh table holds no valid entry
            } else {
                let e1 = self.entry(t1, i1);
                let e2 = self.entry(t2, i2);
                if (t1 == t && i1 == i) && (t2 == t && i2 == i) {
                } else if t1 == t && i1 == i {
                    // child of the new pointer is c; every older pointer's
                    // child lies below pre.table_count()
                    assert(pre.ptr_at(t2, i2));
                    assert(pre.ptr_entry_ok(t2, i2));
                } else if t2 == t && i2 == i {
                    assert(pre.ptr_at(t1, i1));
                    assert(pre.ptr_entry_ok(t1, i1));
                } else {
                    assert(pre.ptr_at(t1, i1) && pre.ptr_at(t2, i2));
                }
            }
        }
        assert(self.wf());

        // No address resolves differently.
        assert forall|va: u64| self.lookup(va) == pre.lookup(va) by {
            let li2 = l2_index(va);
            let li1 = l1_index(va);
            let li0 = l0_index(va);
            assert(va >> 30 >= 0 && (va >> 30) & 0x1FF < 512 && (va >> 21) & 0x1FF < 512
                && (va >> 12) & 0x1FF < 512) by (bit_vector);
            if t == 0 {
                // a pointer was planted in the root
                if li2 == i {
                    assert(!entry_is_valid(pre.entry(0, li2)));
                    assert(self.entry(0, li2) == w);
                    assert(self.entry(c, li1) == 0);
                } else {
                    assert(self.entry(0, li2) == pre.entry(0, li2));
                    if entry_is_valid(pre.entry(0, li2)) {
                        assert(pre.ptr_entry_ok(0, li2));
                        let t1 = pre.child_index(pre.entry(0, li2));
                        assert(self.entry(t1, li1) == pre.entry(t1, li1));
                        if entry_is_valid(pre.entry(t1, li1)) {
                            assert(pre.ptr_entry_ok(t1, li1));
                            let t0 = pre.child_index(pre.entry(t1, li1));
                            assert(self.entry(t0, li0) == pre.entry(t0, li0));
                        }
                    }
                }
            } else {
                // a pointer was planted in a middle-level table
                assert(pre.levels@[t] == 1);
                assert(self.entry(0, li2) == pre.entry(0, li2));
                if entry_is_valid(pre.entry(0, li2)) {
                    assert(pre.ptr_entry_ok(0, li2));
                    let t1 = pre.child_index(pre.entry(0, li2));
                    if t1 == t && li1 == i {
                        assert(!entry_is_valid(pre.entry(t1, li1)));
                        assert(self.entry(t1, li1) == w);
                        assert(self.entry(c, li0) == 0);
                    } else {
                        assert(self.entry(t1, li1) == pre.entry(t1, li1));
                        if entry_is_valid(pre.entry(t1, li1)) {
                            assert(pre.ptr_entry_ok(t1, li1));
                            let t0 = pre.child_index(pre.entry(t1, li1));
                            assert(t0 != t) by {
                                assert(pre.levels@[t0] + 1 == pre.levels@[t1]);
                            }
                            assert(self.entry(t0, li0) == pre.entry(t0, li0));
                        }
                    }
                }
            }
        }
    }
}

/// A freshly mapped page reads back exactly: the leaf entry that `map_page`
/// installs for `(paddr, flags)` is valid, its extracted physical frame
/// address is `paddr` again (so the frame number it carries is
/// `paddr >> 12`), and its R, W, X and U bits each equal the corresponding
/// flag of the request.
pub proof fn lemma_mapped_pte_decodes(paddr: u64, flags: PageFlags)
    requires
        spec_is_aligned(paddr),
        paddr < PADDR_LIMIT,
    ensures
        ({
            let w = PTE::spec_leaf(paddr, flags);
            &&& entry_is_valid(w)
            &&& PTE(w).spec_into_paddr() == paddr
            &&& (w & 2 != 0) == flags.read
            &&& (w & 4 != 0) == flags.write
            &&& (w & 8 != 0) == flags.execute
            &&& (w & 16 != 0) == flags.user
        }),
{
    let a: u64 = if flags.read { 2 } else { 0 };
    let b: u64 = if flags.write { 4 } else { 0 };
    let c: u64 = if flags.execute { 8 } else { 0 };
    let d: u64 = if flags.user { 16 } else { 0 };
    let fr = flags.spec_as_raw();
    let p = paddr;
    let w = PTE::spec_leaf(paddr, flags);
    assert(fr == ((a | b) | c) | d);
    assert(w == (((p >> 12) << 10) | fr) | 1);
    assert((a == 0 || a == 2) && (b == 0 || b == 4) && (c == 0 || c == 8) && (d == 0 || d
        == 16));
    assert({
        &&& w & 1 == 1
        &&& (w >> 10) << 12 == p
        &&& (w & 2 != 0) == (a == 2)
        &&& (w & 4 != 0) == (b == 4)
        &&& (w & 8 != 0) == (c == 8)
        &&& (w & 16 != 0) == (d == 16)
    }) by (bit_vector)
        requires
            (a == 0 || a == 2) && (b == 0 || b == 4) && (c == 0 || c == 8) && (d == 0 || d
                == 16) && fr == ((a | b) | c) | d && p % 4096 == 0 && p
                < 0x100_0000_0000_0000 && w == (((p >> 12) << 10) | fr) | 1,
    ;
}

/// A fresh table frame: 512 zeroed entries.
fn zero_table() -> (t: Vec<u64>)
    ensures
        t@.len() == 512,
        forall|i: int| 0 <= i < 512 ==> t@[i] == 0,
{
    let mut t: Vec<u64> = Vec::new();
    let mut k: usize = 0;
    while k < 512
        invariant
            k <= 512,
            t@.len() == k,
            forall|i: int| 0 <= i < k ==> t@[i] == 0,
        decreases 512 - k,
    {
        t.push(0);
        k = k + 1;
    }
    t
}

} // verus!
