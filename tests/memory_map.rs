use etheryal_kernel::frame::{KernelFrameAllocator, MemoryRegion, MemoryRegionKind, FRAME_SIZE};
use etheryal_kernel::heap::{init_heap, map_range, HEAP_FIRST_PAGE, HEAP_LAST_PAGE};
use etheryal_kernel::paging::{init, phys_to_virt, MapToError, Mapping, PRESENT, WRITABLE};

fn usable(start: u64, end: u64) -> MemoryRegion {
    MemoryRegion { start, end, kind: MemoryRegionKind::Usable }
}

fn allocator_with(frames: u64) -> KernelFrameAllocator {
    KernelFrameAllocator::new(vec![usable(0x10_0000, 0x10_0000 + frames * FRAME_SIZE)])
}

#[test]
fn frames_come_out_distinct_aligned_then_none() {
    let regions = vec![
        usable(0x1000, 0x4000),
        MemoryRegion { start: 0x4000, end: 0x5000, kind: MemoryRegionKind::Bootloader },
        usable(0x5800, 0x8000),
        MemoryRegion { start: 0x8000, end: 0x9000, kind: MemoryRegionKind::UnknownBios(2) },
    ];
    let mut a = KernelFrameAllocator::new(regions);
    let mut got = Vec::new();
    while let Some(f) = a.allocate_frame() {
        got.push(f);
    }
    assert_eq!(got, vec![0x1000, 0x2000, 0x3000, 0x6000, 0x7000]);
    for (i, f) in got.iter().enumerate() {
        assert_eq!(f % FRAME_SIZE, 0);
        for g in &got[i + 1..] {
            assert_ne!(f, g);
        }
    }
    assert_eq!(a.allocate_frame(), None);
    assert_eq!(a.allocate_frame(), None);
}

#[test]
fn no_regions_give_no_frames() {
    let mut a = KernelFrameAllocator::new(Vec::new());
    assert_eq!(a.allocate_frame(), None);
}

#[test]
fn partial_frames_are_left_out() {
    let mut a = KernelFrameAllocator::new(vec![usable(0x1001, 0x2fff), usable(0x3000, 0x4000)]);
    assert_eq!(a.allocate_frame(), Some(0x3000));
    assert_eq!(a.allocate_frame(), None);
}

#[test]
fn region_at_top_of_address_space() {
    let mut a = KernelFrameAllocator::new(vec![usable(u64::MAX - 0x1fff, u64::MAX)]);
    assert_eq!(a.allocate_frame(), Some(u64::MAX - 0x1fff));
    assert_eq!(a.allocate_frame(), None);
    let mut b = KernelFrameAllocator::new(vec![usable(u64::MAX - 0x2fff, u64::MAX)]);
    assert_eq!(b.allocate_frame(), Some(u64::MAX - 0x2fff));
    assert_eq!(b.allocate_frame(), Some(u64::MAX - 0x1fff));
    assert_eq!(b.allocate_frame(), None);
    // rounding the start up would leave the address space
    let mut c = KernelFrameAllocator::new(vec![usable(u64::MAX - 10, u64::MAX)]);
    assert_eq!(c.allocate_frame(), None);
}

#[test]
fn deallocation_changes_nothing() {
    let mut a = allocator_with(2);
    let f = a.allocate_frame().unwrap();
    a.deallocate_frame(f);
    assert_eq!(a.allocate_frame(), Some(f + FRAME_SIZE));
    assert_eq!(a.allocate_frame(), None);
}

#[test]
fn map_to_creates_tables_then_maps() {
    let mut pt = init(0xffff_8000_0000_0000, 0x1000);
    let mut a = allocator_with(4);
    assert_eq!(pt.map_to(7, 0x55000, PRESENT | WRITABLE, &mut a), Ok(()));
    assert_eq!(pt.translate(7), Some(Mapping { frame: 0x55000, flags: 3 }));
    assert_eq!(pt.translate(8), None);
    // the three tables took three frames: one is left
    assert_eq!(pt.map_to(8, 0x56000, PRESENT, &mut a), Ok(()));
    assert_eq!(a.allocate_frame(), Some(0x10_0000 + 3 * FRAME_SIZE));
    assert_eq!(
        pt.map_to(7, 0x99000, PRESENT, &mut a),
        Err(MapToError::PageAlreadyMapped(0x55000))
    );
    assert_eq!(pt.translate(7), Some(Mapping { frame: 0x55000, flags: 3 }));
}

#[test]
fn map_to_reports_missing_frames() {
    let mut pt = init(0, 0x1000);
    let mut a = allocator_with(2);
    assert_eq!(pt.map_to(1, 0x55000, PRESENT, &mut a), Err(MapToError::FrameAllocationFailed));
    assert_eq!(pt.translate(1), None);
    assert_eq!(a.allocate_frame(), None);
}

#[test]
fn offsets_translate_physical_addresses() {
    let pt = init(0xffff_8000_0000_0000, 0x1000);
    assert_eq!(pt.offset(), 0xffff_8000_0000_0000);
    assert_eq!(pt.level_4_table_address(), Some(0xffff_8000_0000_1000));
    assert_eq!(phys_to_virt(0x1000, 0x2000), Some(0x3000));
    assert_eq!(phys_to_virt(u64::MAX, 1), None);
}

#[test]
fn heap_window_maps_with_exactly_enough_frames() {
    let pages = HEAP_LAST_PAGE - HEAP_FIRST_PAGE + 1;
    assert_eq!(pages, 25);
    let mut pt = init(0, 0x1000);
    let mut a = allocator_with(pages + 3);
    assert_eq!(init_heap(&mut pt, &mut a), Ok(()));
    let mut frames = Vec::new();
    for p in HEAP_FIRST_PAGE..=HEAP_LAST_PAGE {
        let m = pt.translate(p).unwrap();
        assert_eq!(m.flags, PRESENT | WRITABLE);
        assert!(!frames.contains(&m.frame));
        frames.push(m.frame);
    }
    assert_eq!(pt.translate(HEAP_LAST_PAGE + 1), None);
    assert_eq!(a.allocate_frame(), None);
}

#[test]
fn heap_window_fails_one_frame_short() {
    let pages = HEAP_LAST_PAGE - HEAP_FIRST_PAGE + 1;
    let mut pt = init(0, 0x1000);
    let mut a = allocator_with(pages + 2);
    assert_eq!(init_heap(&mut pt, &mut a), Err(MapToError::FrameAllocationFailed));
    assert_eq!(pt.translate(HEAP_LAST_PAGE), None);
}

#[test]
fn range_across_table_boundary_needs_more_tables() {
    // pages 510..=513 span two level-1 tables: 4 pages + 1 + 1 + 2 tables
    let mut pt = init(0, 0x1000);
    let mut a = allocator_with(8);
    assert_eq!(map_range(&mut pt, 510, 513, PRESENT, &mut a), Ok(()));
    let mut pt2 = init(0, 0x1000);
    let mut b = allocator_with(7);
    assert_eq!(map_range(&mut pt2, 510, 513, PRESENT, &mut b), Err(MapToError::FrameAllocationFailed));
    // once the tables exist, a second range in them only needs page frames
    let mut c = allocator_with(2);
    assert_eq!(map_range(&mut pt, 500, 501, PRESENT, &mut c), Ok(()));
}

#[test]
fn range_over_a_mapped_page_fails() {
    let mut pt = init(0, 0x1000);
    let mut a = allocator_with(16);
    assert_eq!(pt.map_to(3, 0x77000, PRESENT, &mut a), Ok(()));
    assert_eq!(
        map_range(&mut pt, 1, 4, PRESENT, &mut a),
        Err(MapToError::PageAlreadyMapped(0x77000))
    );
}

#[test]
fn adopted_tables_are_reused() {
    let mut pt = init(0, 0x1000);
    pt.adopt_table(3, 0, 0x2000);
    pt.adopt_table(2, 0, 0x3000);
    pt.adopt_table(3, 0, 0x9000);
    assert_eq!(pt.table_frame(3, 0), Some(0x2000));
    assert_eq!(pt.table_frame(2, 0), Some(0x3000));
    assert_eq!(pt.table_frame(1, 0), None);
    let mut a = allocator_with(2);
    assert_eq!(pt.map_to(5, 0x44000, PRESENT, &mut a), Ok(()));
    assert_eq!(pt.table_frame(1, 0), Some(0x10_0000));
    assert_eq!(a.allocate_frame(), Some(0x10_1000));
    assert_eq!(a.allocate_frame(), None);
}
