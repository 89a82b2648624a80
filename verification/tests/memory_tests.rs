use ham_dos::memory::{
    create_example_mapping, init, BootInfoFrameAllocator, MapToError, Mapper, MemoryRegion,
    MemoryRegionType, PageTable, FLAG_HUGE, FLAG_PRESENT, FLAG_WRITABLE,
};

fn region(start: u64, end: u64, t: MemoryRegionType) -> MemoryRegion {
    MemoryRegion { start_addr: start, end_addr: end, region_type: t }
}

#[test]
fn allocator_returns_usable_frames_in_order() {
    let map = vec![
        region(0x0000, 0x4000, MemoryRegionType::InUse),
        region(0x4000, 0x8000, MemoryRegionType::Usable),
        region(0x8000, 0xC000, MemoryRegionType::Reserved),
        region(0xC000, 0xE000, MemoryRegionType::Usable),
    ];
    let mut alloc = BootInfoFrameAllocator::init(map);
    // The Nth call returns the Nth usable frame in memory-map order.
    let expected = [0x4000u64, 0x5000, 0x6000, 0x7000, 0xC000, 0xD000];
    let mut seen = Vec::new();
    for e in expected.iter() {
        let f = alloc.allocate_frame().expect("frame owed");
        assert_eq!(f, *e);
        // No frame is ever returned twice.
        assert!(!seen.contains(&f));
        seen.push(f);
    }
    // The map is exhausted: the cursor never goes back.
    assert_eq!(alloc.allocate_frame(), None);
    assert_eq!(alloc.allocate_frame(), None);
}

#[test]
fn empty_map_allocates_nothing() {
    let mut alloc = BootInfoFrameAllocator::init(Vec::new());
    assert_eq!(alloc.allocate_frame(), None);
}

#[test]
fn translate_unmapped_is_none() {
    let mapper = init(0x1000);
    // No mapping installed: every address is unmapped, not an error.
    assert_eq!(mapper.translate_addr(0x0), None);
    assert_eq!(mapper.translate_addr(0x2000), None);
    assert_eq!(mapper.translate_addr(0xDEAD_BEEF), None);
}

#[test]
fn map_then_translate() {
    let mut mapper = init(0x1000);
    let map = vec![region(0x10000, 0x20000, MemoryRegionType::Usable)];
    let mut alloc = BootInfoFrameAllocator::init(map);

    let r = mapper.map_to(0x4000, 0xB8000, FLAG_PRESENT | FLAG_WRITABLE, &mut alloc);
    assert_eq!(r, Ok(()));

    // The page's base and interior translate to frame base plus offset.
    assert_eq!(mapper.translate_addr(0x4000), Some(0xB8000));
    assert_eq!(mapper.translate_addr(0x4ABC), Some(0xB8ABC));
    assert_eq!(mapper.translate_addr(0x4FFF), Some(0xB8FFF));
    // Neighboring pages stay unmapped.
    assert_eq!(mapper.translate_addr(0x3FFF), None);
    assert_eq!(mapper.translate_addr(0x5000), None);
}

#[test]
fn remapping_is_a_caller_error() {
    let mut mapper = init(0x1000);
    let map = vec![region(0x10000, 0x20000, MemoryRegionType::Usable)];
    let mut alloc = BootInfoFrameAllocator::init(map);

    assert_eq!(mapper.map_to(0x4000, 0xB8000, FLAG_PRESENT, &mut alloc), Ok(()));
    assert_eq!(
        mapper.map_to(0x4000, 0xC0000, FLAG_PRESENT, &mut alloc),
        Err(MapToError::PageAlreadyMapped)
    );
    // The original mapping still stands.
    assert_eq!(mapper.translate_addr(0x4000), Some(0xB8000));
}

#[test]
fn allocator_exhaustion_fails_mapping() {
    let mut mapper = init(0x1000);
    // One usable frame; three intermediate tables are missing.
    let map = vec![region(0x10000, 0x11000, MemoryRegionType::Usable)];
    let mut alloc = BootInfoFrameAllocator::init(map);
    assert_eq!(
        mapper.map_to(0x4000, 0xB8000, FLAG_PRESENT, &mut alloc),
        Err(MapToError::FrameAllocationFailed)
    );
}

#[test]
fn second_page_shares_tables() {
    let mut mapper = init(0x1000);
    let map = vec![region(0x10000, 0x20000, MemoryRegionType::Usable)];
    let mut alloc = BootInfoFrameAllocator::init(map);

    assert_eq!(mapper.map_to(0x4000, 0xB8000, FLAG_PRESENT, &mut alloc), Ok(()));
    // A page under the same tables needs no new frames.
    assert_eq!(mapper.map_to(0x5000, 0x10000, FLAG_PRESENT, &mut alloc), Ok(()));
    assert_eq!(mapper.translate_addr(0x5000), Some(0x10000));
    assert_eq!(mapper.translate_addr(0x4000), Some(0xB8000));
}

#[test]
fn example_mapping_reaches_text_buffer() {
    let mut mapper = init(0x1000);
    let map = vec![region(0x10000, 0x20000, MemoryRegionType::Usable)];
    let mut alloc = BootInfoFrameAllocator::init(map);
    create_example_mapping(0x1000, &mut mapper, &mut alloc);
    assert_eq!(mapper.translate_addr(0x1000), Some(0xB8000));
    assert_eq!(mapper.translate_addr(0x1200), Some(0xB8200));
}

#[test]
fn huge_parent_entry_is_unsupported() {
    // A hierarchy whose level-3 entry for the page is a huge leaf: the
    // level-4 table at 0x1000 points to a level-3 table at 0x2000 whose
    // first entry carries the huge flag. Virtual page 0x4000 has all
    // upper indices zero, so its walk runs straight into it.
    let l4 = {
        let mut t = PageTable::empty();
        t.entries[0] = 0x2000 | FLAG_PRESENT | FLAG_WRITABLE;
        t
    };
    let l3 = {
        let mut t = PageTable::empty();
        t.entries[0] = 0x200000 | FLAG_PRESENT | FLAG_HUGE;
        t
    };
    let mut mapper = Mapper { l4_frame: 0x1000, frames: vec![0x1000, 0x2000], tables: vec![l4, l3] };
    let map = vec![region(0x10000, 0x20000, MemoryRegionType::Usable)];
    let mut alloc = BootInfoFrameAllocator::init(map);
    assert_eq!(
        mapper.map_to(0x4000, 0xB8000, FLAG_PRESENT, &mut alloc),
        Err(MapToError::ParentEntryHugePage)
    );
}
