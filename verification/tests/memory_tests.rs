use rvos::allocator::{alloc_pages, BumpAllocator};
use rvos::memory::{is_aligned, MapError, PTE, Paddr, PageFlags, PageTables, Vaddr};

#[test]
fn vaddr_accessors() {
    let va = Vaddr(0x8020_1000);
    assert_eq!(va.as_number(), 0x8020_1000);
    assert!(va.is_aligned());
    assert!(!Vaddr(0x8020_1004).is_aligned());
    assert!(is_aligned(0x4000));
    assert!(!is_aligned(0x4001));
}

#[test]
fn vaddr_pt_indices() {
    // 0x8020_1000: offset 0, L0 index 0x1, L1 index 0x1, L2 index 0x2
    let va = Vaddr(0x8020_1000);
    assert_eq!(va.pt_index_for_level(0), 0x001);
    assert_eq!(va.pt_index_for_level(1), 0x001);
    assert_eq!(va.pt_index_for_level(2), 0x002);
}

#[test]
fn pte_bit_layout() {
    let pte = PTE::new(0x2, 0x1, 0x1, 0b1_1111);
    assert_eq!(pte.ppn_2(), 0x2);
    assert_eq!(pte.ppn_1(), 0x1);
    assert_eq!(pte.ppn_0(), 0x1);
    assert!(pte.valid());
    assert!(pte.read());
    assert!(pte.write());
    assert!(pte.x());
    assert!(pte.u());
    assert!(!PTE::zero().valid());
    assert!(PTE::zero().set_valid().valid());
}

#[test]
fn pte_paddr_round_trip() {
    let paddr = Paddr(0x8020_3000);
    let pte = PTE::from_paddr(paddr);
    assert_eq!(pte.into_paddr().0, 0x8020_3000);
    assert!(!pte.valid());
    assert!(pte.set_valid().valid());
}

#[test]
fn page_flags_presets() {
    let kernel = PageFlags::kernel_all();
    assert!(kernel.read && kernel.write && kernel.execute && !kernel.user);
    let all = PageFlags::all();
    assert!(all.read && all.write && all.execute && all.user);
    let pte = PTE::from_paddr(Paddr(0x1000)).with_flags(PageFlags::kernel_all()).set_valid();
    assert!(pte.read() && pte.write() && pte.x() && !pte.u() && pte.valid());
}

#[test]
fn mapped_page_reads_back() {
    // a freshly mapped page walks back to a leaf carrying exactly the
    // frame and the permissions that were asked for
    let mut pt = PageTables::new(Paddr(0x8100_0000));
    pt.map_page(Vaddr(0x8020_0000), Paddr(0x8077_0000), PageFlags::kernel_all());
    let pte = pt.lookup_pte(Vaddr(0x8020_0000)).expect("mapped");
    assert_eq!(pte.into_paddr().0, 0x8077_0000);
    assert_eq!((pte.into_paddr().0 >> 12), 0x8077_0000u64 >> 12);
    assert!(pte.valid());
    assert!(pte.read() && pte.write() && pte.x() && !pte.u());
    // an unrelated page stays unmapped
    assert!(pt.lookup_pte(Vaddr(0x9999_9000)).is_none());
}

#[test]
fn remap_is_refused() {
    let mut pt = PageTables::new(Paddr(0x8100_0000));
    assert_eq!(pt.try_map_page(Vaddr(0x1000), Paddr(0x2000), PageFlags::all()), Ok(()));
    assert_eq!(
        pt.try_map_page(Vaddr(0x1000), Paddr(0x3000), PageFlags::all()),
        Err(MapError::AlreadyMapped)
    );
    // the first mapping is still in place
    let pte = pt.lookup_pte(Vaddr(0x1000)).unwrap();
    assert_eq!(pte.into_paddr().0, 0x2000);
}

#[test]
fn misaligned_map_is_refused() {
    let mut pt = PageTables::new(Paddr(0x8100_0000));
    assert_eq!(
        pt.try_map_page(Vaddr(0x1001), Paddr(0x2000), PageFlags::all()),
        Err(MapError::VaddrNotAligned)
    );
    assert_eq!(
        pt.try_map_page(Vaddr(0x1000), Paddr(0x2001), PageFlags::all()),
        Err(MapError::PaddrNotAligned)
    );
}

#[test]
fn alloc_pages_aligned_and_disjoint() {
    let mut allocator = BumpAllocator::new();
    allocator.init(0x8030_0100, 0x8100_0000);
    let a1 = alloc_pages(&mut allocator, 2);
    let a2 = alloc_pages(&mut allocator, 1);
    assert_eq!(a1.0 & 0xFFF, 0);
    assert_eq!(a2.0 & 0xFFF, 0);
    assert!(a1.0 + 2 * 4096 <= a2.0);
    assert_eq!(a1.0, 0x8030_1000);
    assert_eq!(a2.0, 0x8030_3000);
}

#[test]
fn bump_allocator_rounds_to_alignment() {
    let mut allocator = BumpAllocator::new();
    allocator.init(0x1001, 0x10000);
    let a = allocator.allocate(16, 8);
    assert_eq!(a, 0x1008);
    let b = allocator.allocate(1, 1);
    assert_eq!(b, 0x1018);
    allocator.dealloc(a);
    let c = allocator.allocate(1, 1);
    assert_eq!(c, 0x1019);
}
