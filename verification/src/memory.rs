//! Virtual-memory manager: frame allocator and four-level page tables.
//!
//! The boot loader hands the kernel a physical memory map — ordered,
//! page-aligned ranges tagged usable or not — and a constant offset at
//! which all physical memory is identity-mapped. The frame allocator
//! filters that map to its usable ranges and steps through them in fixed
//! 4 KiB increments, forward only, never handing a frame out twice. The
//! mapper owns a model of the page-table hierarchy — four levels of 512
//! entries, each entry a frame address plus flags — and walks it to
//! translate virtual addresses and to install new leaf mappings,
//! allocating missing intermediate tables from the frame allocator. The
//! binary mirrors every installed entry into the live tables through the
//! physical-memory offset and flushes the translation cache; only the
//! walking and mapping decisions live (and are verified) here.

use vstd::prelude::*;

verus! {

/// Size of a physical frame and of a virtual page.
pub const PAGE_SIZE: u64 = 4096;

/// Entries in one page table.
pub const ENTRY_COUNT: usize = 512;

/// Present flag: the entry maps something.
pub const FLAG_PRESENT: u64 = 1;

/// Writable flag.
pub const FLAG_WRITABLE: u64 = 2;

/// Huge-page flag: the entry is a large leaf rather than a table pointer.
/// Unsupported here — encountering it during a walk is fatal.
pub const FLAG_HUGE: u64 = 0x80;

/// The physical frame address held in bits 12..52 of an entry.
pub const ENTRY_ADDR_MASK: u64 = 0x000F_FFFF_FFFF_F000;

/// One more than the largest physical address an entry can hold.
pub const PHYS_ADDR_LIMIT: u64 = 0x0010_0000_0000_0000;

/// Tag of one range of the boot memory map.
#[derive(Debug, Copy, Clone, Eq, PartialEq, Structural)]
pub enum MemoryRegionType {
    /// Free for the taking.
    Usable,
    /// Firmware or device memory; never allocated.
    Reserved,
    /// Already holding the kernel or boot structures.
    InUse,
}

/// One range of the boot memory map: `[start_addr, end_addr)`.
#[derive(Debug, Copy, Clone, Eq, PartialEq, Structural)]
pub struct MemoryRegion {
    pub start_addr: u64,
    pub end_addr: u64,
    pub region_type: MemoryRegionType,
}

/// A sound boot memory map: every range page-aligned and well-ordered,
/// ranges ascending and disjoint.
pub open spec fn spec_memory_map_wf(regions: Seq<MemoryRegion>) -> bool {
    &&& forall|i: int|
        0 <= i < regions.len() ==> (#[trigger] regions[i]).start_addr % PAGE_SIZE == 0
            && regions[i].end_addr % PAGE_SIZE == 0 && regions[i].start_addr
            <= regions[i].end_addr && regions[i].end_addr <= PHYS_ADDR_LIMIT
    &&& forall|i: int|
        #![trigger regions[i], regions[i + 1]]
        0 <= i < regions.len() - 1 ==> regions[i].end_addr <= regions[i + 1].start_addr
}

/// The frames a single region contributes when it is usable: its length
/// in whole pages, each frame's base stepping by the page size.
pub open spec fn spec_region_frames(r: MemoryRegion) -> Seq<u64> {
    Seq::new(
        ((r.end_addr - r.start_addr) / PAGE_SIZE as int) as nat,
        |i: int| (r.start_addr + PAGE_SIZE * i) as u64,
    )
}

/// All usable frames of the memory map, in memory-map order: the Nth
/// allocation returns the Nth element of this sequence.
pub open spec fn spec_usable_frames(regions: Seq<MemoryRegion>) -> Seq<u64>
    decreases regions.len(),
{
    if regions.len() == 0 {
        Seq::empty()
    } else {
        (if regions[0].region_type == MemoryRegionType::Usable {
            spec_region_frames(regions[0])
        } else {
            Seq::empty()
        }) + spec_usable_frames(regions.skip(1))
    }
}

/// A single frame of the map is at least `bound` when the first region
/// starts at or above it.
proof fn lemma_usable_frame_lower_bound(regions: Seq<MemoryRegion>, bound: u64, k: int)
    requires
        spec_memory_map_wf(regions),
        regions.len() > 0 ==> bound <= regions[0].start_addr,
        0 <= k < spec_usable_frames(regions).len(),
    ensures
        bound <= spec_usable_frames(regions)[k],
    decreases regions.len(),
{
    let rest = regions.skip(1);
    assert(spec_memory_map_wf(rest)) by {
        assert(forall|i: int| 0 <= i < rest.len() ==> rest[i] == regions[i + 1]);
    }
    let head = if regions[0].region_type == MemoryRegionType::Usable {
        spec_region_frames(regions[0])
    } else {
        Seq::<u64>::empty()
    };
    if k < head.len() {
        assert(head[k] == regions[0].start_addr + PAGE_SIZE * k);
        assert(PAGE_SIZE * k >= 0) by (nonlinear_arith)
            requires
                k >= 0,
                PAGE_SIZE == 4096,
        ;
    } else {
        assert(spec_usable_frames(regions)[k] == spec_usable_frames(rest)[k - head.len()]);
        if rest.len() > 0 {
            assert(rest[0] == regions[1]);
            assert(bound <= regions[0].start_addr <= regions[0].end_addr <= rest[0].start_addr);
        }
        lemma_usable_frame_lower_bound(rest, bound, k - head.len());
    }
}

/// Two frames of the map, in order, are strictly ordered as addresses.
proof fn lemma_usable_frames_increasing_at(regions: Seq<MemoryRegion>, i: int, j: int)
    requires
        spec_memory_map_wf(regions),
        0 <= i < j < spec_usable_frames(regions).len(),
    ensures
        spec_usable_frames(regions)[i] < spec_usable_frames(regions)[j],
    decreases regions.len(),
{
    let rest = regions.skip(1);
    let full = spec_usable_frames(regions);
    assert(spec_memory_map_wf(rest)) by {
        assert(forall|g: int| 0 <= g < rest.len() ==> rest[g] == regions[g + 1]);
    }
    let head = if regions[0].region_type == MemoryRegionType::Usable {
        spec_region_frames(regions[0])
    } else {
        Seq::<u64>::empty()
    };
    if j < head.len() {
        // Two frames of the first region: separated by the page-size step.
        assert(head[i] == regions[0].start_addr + PAGE_SIZE * i);
        assert(head[j] == regions[0].start_addr + PAGE_SIZE * j);
        assert(PAGE_SIZE * i < PAGE_SIZE * j) by (nonlinear_arith)
            requires
                0 <= i < j,
                PAGE_SIZE == 4096,
        ;
    } else if i < head.len() {
        // A frame of the first region against one of a later region: the
        // former stays below the region's end, the latter at or above it.
        assert(head[i] == regions[0].start_addr + PAGE_SIZE * i);
        assert(i < ((regions[0].end_addr - regions[0].start_addr) / PAGE_SIZE as int));
        assert(PAGE_SIZE * i < regions[0].end_addr - regions[0].start_addr) by (nonlinear_arith)
            requires
                0 <= i < (regions[0].end_addr - regions[0].start_addr) / PAGE_SIZE as int,
                PAGE_SIZE == 4096,
        ;
        assert(full[j] == spec_usable_frames(rest)[j - head.len()]);
        if rest.len() > 0 {
            assert(rest[0] == regions[1]);
        }
        lemma_usable_frame_lower_bound(rest, regions[0].end_addr, j - head.len());
    } else {
        assert(full[i] == spec_usable_frames(rest)[i - head.len()]);
        assert(full[j] == spec_usable_frames(rest)[j - head.len()]);
        lemma_usable_frames_increasing_at(rest, i - head.len(), j - head.len());
    }
}

/// The usable-frame sequence is strictly increasing, hence no frame ever
/// appears twice: together with the forward-only cursor this is the
/// no-reuse guarantee of the allocator.
pub proof fn lemma_usable_frames_strictly_increasing(regions: Seq<MemoryRegion>)
    requires
        spec_memory_map_wf(regions),
    ensures
        forall|i: int, j: int|
            0 <= i < j < spec_usable_frames(regions).len() ==> spec_usable_frames(regions)[i]
                < spec_usable_frames(regions)[j],
{
    assert forall|i: int, j: int|
        0 <= i < j < spec_usable_frames(regions).len() implies spec_usable_frames(regions)[i]
        < spec_usable_frames(regions)[j] by {
        lemma_usable_frames_increasing_at(regions, i, j);
    }
}

/// Allocates physical frames from the boot memory map: it filters the map
/// to its usable ranges and returns the Nth usable frame on the Nth call.
/// The cursor only moves forward; nothing is ever reclaimed.
pub struct BootInfoFrameAllocator {
    pub memory_map: Vec<MemoryRegion>,
    pub next: usize,
}

impl BootInfoFrameAllocator {
    /// A sound allocator works on a sound boot memory map.
    pub open spec fn wf(&self) -> bool {
        spec_memory_map_wf(self.memory_map@)
    }

    /// The frames this allocator can still hand out.
    pub open spec fn spec_frames(&self) -> Seq<u64> {
        spec_usable_frames(self.memory_map@)
    }

    /// Create an allocator from the boot memory map. The caller
    /// guarantees the map is the boot loader's: well-ordered, aligned,
    /// and with every frame marked usable really unused.
    pub fn init(memory_map: Vec<MemoryRegion>) -> (r: BootInfoFrameAllocator)
        requires
            spec_memory_map_wf(memory_map@),
        ensures
            r.memory_map == memory_map,
            r.next == 0,
            r.wf(),
    {
        BootInfoFrameAllocator { memory_map, next: 0 }
    }

    /// The Nth usable frame of the map, if the map holds that many.
    #[verifier::rlimit(60)]
    fn nth_usable_frame(&self, n: usize) -> (r: Option<u64>)
        requires
            self.wf(),
        ensures
            n < self.spec_frames().len() ==> r == Some(self.spec_frames()[n as int]),
            n >= self.spec_frames().len() ==> r is None,
    {
        let s = Ghost(self.memory_map@);
        let full = Ghost(spec_usable_frames(self.memory_map@));
        let mut i: usize = 0;
        let mut remaining: u64 = n as u64;

        proof {
            assert(s@.skip(0) =~= s@);
            assert(full@.skip(0) =~= full@);
        }
        while i < self.memory_map.len()
            invariant
                self.wf(),
                s@ == self.memory_map@,
                full@ == spec_usable_frames(s@),
                0 <= i <= s@.len(),
                remaining <= n,
                n as u64 - remaining == full@.len() - spec_usable_frames(s@.skip(i as int)).len(),
                full@.skip(n - remaining) == spec_usable_frames(s@.skip(i as int)),
            decreases s@.len() - i,
        {
            let region = self.memory_map[i];
            let ghost rest = s@.skip(i as int);
            proof {
                assert(rest[0] == s@[i as int]);
                assert(rest.skip(1) =~= s@.skip(i + 1));
            }
            if matches!(region.region_type, MemoryRegionType::Usable) {
                let count = (region.end_addr - region.start_addr) / PAGE_SIZE;
                let ghost head = spec_region_frames(region);
                proof {
                    assert(spec_usable_frames(rest) == head + spec_usable_frames(
                        s@.skip(i + 1),
                    ));
                }
                if remaining < count {
                    proof {
                        assert((remaining as int) * (PAGE_SIZE as int) == (PAGE_SIZE as int) * (
                        remaining as int) && (remaining as int) * (PAGE_SIZE as int) < (
                        count as int) * (PAGE_SIZE as int) && (count as int) * (PAGE_SIZE as int)
                            <= region.end_addr - region.start_addr) by (nonlinear_arith)
                            requires
                                0 <= remaining < count,
                                count == (region.end_addr - region.start_addr) / (PAGE_SIZE as int),
                                PAGE_SIZE == 4096,
                                region.start_addr <= region.end_addr,
                        ;
                    }
                    let frame = region.start_addr + remaining * PAGE_SIZE;
                    proof {
                        assert(head[remaining as int] == frame);
                        assert(full@.skip(n - remaining)[remaining as int] == full@[n as int]);
                    }
                    return Some(frame);
                }
                remaining = remaining - count;
                proof {
                    assert(full@.skip(n - (remaining + count)).skip(count as int) =~= full@.skip(
                        n - remaining,
                    ));
                    assert((head + spec_usable_frames(s@.skip(i + 1))).skip(head.len() as int)
                        =~= spec_usable_frames(s@.skip(i + 1)));
                    assert(head.len() == count);
                }
            } else {
                proof {
                    assert(spec_usable_frames(rest) == Seq::<u64>::empty() + spec_usable_frames(
                        s@.skip(i + 1),
                    ));
                    assert(Seq::<u64>::empty() + spec_usable_frames(s@.skip(i + 1))
                        =~= spec_usable_frames(s@.skip(i + 1)));
                }
            }
            i = i + 1;
        }
        proof {
            assert(s@.skip(i as int) =~= Seq::<MemoryRegion>::empty());
            assert(spec_usable_frames(s@.skip(i as int)).len() == 0);
            assert(full@.skip(n - remaining).len() == 0);
        }
        None
    }

    /// Return the next usable frame, stepping the forward-only cursor:
    /// the Nth call returns the Nth usable frame in memory-map order, and
    /// `None` once the map is exhausted (the cursor still steps, as the
    /// original iterator's does).
    pub fn allocate_frame(&mut self) -> (r: Option<u64>)
        requires
            old(self).wf(),
            old(self).next < usize::MAX,
        ensures
            final(self).wf(),
            final(self).memory_map == old(self).memory_map,
            final(self).next == old(self).next + 1,
            old(self).next < old(self).spec_frames().len() ==> r == Some(
                old(self).spec_frames()[old(self).next as int],
            ),
            old(self).next >= old(self).spec_frames().len() ==> r is None,
    {
        let frame = self.nth_usable_frame(self.next);
        self.next = self.next + 1;
        frame
    }
}


/// Does the entry map something?
pub open spec fn spec_entry_present(e: u64) -> bool {
    e & FLAG_PRESENT != 0
}

/// Is the entry a huge-page leaf (unsupported here)?
pub open spec fn spec_entry_huge(e: u64) -> bool {
    e & FLAG_HUGE != 0
}

/// The physical frame address an entry points at.
pub open spec fn spec_entry_addr(e: u64) -> u64 {
    e & ENTRY_ADDR_MASK
}

/// The 9-bit index a virtual address selects in the table of the given
/// level: bits 12..21 at level 1 up to bits 39..48 at level 4.
pub open spec fn spec_table_index(addr: u64, level: int) -> int
    recommends
        1 <= level <= 4,
{
    ((addr >> (((level - 1) * 9 + 12) as u64)) & 0x1FF) as int
}

fn entry_present(e: u64) -> (r: bool)
    ensures
        r == spec_entry_present(e),
{
    e & FLAG_PRESENT != 0
}

fn entry_huge(e: u64) -> (r: bool)
    ensures
        r == spec_entry_huge(e),
{
    e & FLAG_HUGE != 0
}

fn entry_addr(e: u64) -> (r: u64)
    ensures
        r == spec_entry_addr(e),
{
    e & ENTRY_ADDR_MASK
}

fn table_index(addr: u64, level: u8) -> (r: usize)
    requires
        1 <= level <= 4,
    ensures
        r == spec_table_index(addr, level as int),
        r < 512,
{
    let shift: u64 = ((level - 1) * 9 + 12) as u64;
    let idx: u64 = (addr >> shift) & 0x1FF;
    proof {
        assert(shift <= 39 ==> (addr >> shift) & 0x1FF < 512) by (bit_vector);
    }
    idx as usize
}

/// One page table: 512 entries of frame address plus flags.
pub struct PageTable {
    pub entries: Vec<u64>,
}

impl PageTable {
    pub open spec fn wf(&self) -> bool {
        self.entries.len() == ENTRY_COUNT
    }

    /// A table with every entry clear, as a freshly allocated level must
    /// start out.
    pub fn empty() -> (r: PageTable)
        ensures
            r.wf(),
            forall|i: int| 0 <= i < 512 ==> r.entries[i] == 0,
    {
        let mut entries: Vec<u64> = Vec::new();
        while entries.len() < ENTRY_COUNT
            invariant
                entries.len() <= ENTRY_COUNT,
                forall|i: int| 0 <= i < entries.len() ==> entries[i] == 0,
            decreases ENTRY_COUNT - entries.len(),
        {
            entries.push(0);
        }
        PageTable { entries }
    }
}

/// The model of the live four-level hierarchy, keyed by physical frame
/// address, together with the frame of the active top-level table. The
/// kernel obtains exactly one of these per address space: it stands for
/// exclusive mutable access to the hierarchy, and a second live one would
/// alias the same physical memory.
pub struct Mapper {
    pub l4_frame: u64,
    pub frames: Vec<u64>,
    pub tables: Vec<PageTable>,
}

impl Mapper {
    /// Is a table stored for this frame address?
    pub open spec fn spec_has_table(&self, frame: u64) -> bool {
        exists|i: int| 0 <= i < self.frames.len() && self.frames[i] == frame
    }

    /// Index of the table stored for this frame address.
    pub open spec fn spec_index_of(&self, frame: u64) -> int {
        choose|i: int| 0 <= i < self.frames.len() && self.frames[i] == frame
    }

    /// The entries of the table stored for this frame address.
    pub open spec fn spec_table_at(&self, frame: u64) -> Seq<u64> {
        self.tables[self.spec_index_of(frame)].entries@
    }

    /// The store is sound: tables and frame addresses in step, every
    /// table full-sized, frame addresses aligned, in range, and distinct
    /// — one table per frame of physical memory — and the top-level
    /// table present.
    pub open spec fn wf(&self) -> bool {
        &&& self.frames.len() == self.tables.len()
        &&& forall|i: int| 0 <= i < self.tables.len() ==> (#[trigger] self.tables[i]).wf()
        &&& forall|i: int|
            0 <= i < self.frames.len() ==> (#[trigger] self.frames[i]) % PAGE_SIZE == 0
                && self.frames[i] < PHYS_ADDR_LIMIT
        &&& forall|i: int, j: int|
            0 <= i < j < self.frames.len() ==> self.frames[i] != self.frames[j]
        &&& self.spec_has_table(self.l4_frame)
    }
}

/// The frame of the page table the walk reaches at the given level, for
/// this address: the active top-level frame at level 4, and below it the
/// target of the entry the address selects — provided that entry is
/// present, no huge leaf, and its table is stored.
pub open spec fn spec_walk_frame(m: Mapper, addr: u64, level: int) -> Option<u64>
    recommends
        1 <= level <= 4,
    decreases 4 - level,
{
    if level >= 4 {
        Some(m.l4_frame)
    } else {
        match spec_walk_frame(m, addr, level + 1) {
            None => None,
            Some(f) => {
                if !m.spec_has_table(f) {
                    None
                } else {
                    let e = m.spec_table_at(f)[spec_table_index(addr, level + 1)];
                    if spec_entry_present(e) && !spec_entry_huge(e) {
                        Some(spec_entry_addr(e))
                    } else {
                        None
                    }
                }
            },
        }
    }
}

/// The entry the walk reads at the given level for this address, if the
/// walk reaches a stored table there.
pub open spec fn spec_entry_at_level(m: Mapper, addr: u64, level: int) -> Option<u64>
    recommends
        1 <= level <= 4,
{
    match spec_walk_frame(m, addr, level) {
        None => None,
        Some(f) => {
            if m.spec_has_table(f) {
                Some(m.spec_table_at(f)[spec_table_index(addr, level)])
            } else {
                None
            }
        },
    }
}

/// A huge-page leaf sits on this address's path, in one of the entries a
/// walk reads above the leaf level: translating or mapping through it is
/// unsupported and fatal.
pub open spec fn spec_huge_on_path(m: Mapper, addr: u64) -> bool {
    ||| (spec_entry_at_level(m, addr, 4) matches Some(e) && spec_entry_present(e)
        && spec_entry_huge(e))
    ||| (spec_entry_at_level(m, addr, 3) matches Some(e) && spec_entry_present(e)
        && spec_entry_huge(e))
    ||| (spec_entry_at_level(m, addr, 2) matches Some(e) && spec_entry_present(e)
        && spec_entry_huge(e))
}

/// The address's page has a leaf mapping installed.
pub open spec fn spec_page_mapped(m: Mapper, addr: u64) -> bool {
    spec_entry_at_level(m, addr, 1) matches Some(e) && spec_entry_present(e)
}

/// Base of the physical frame the address's page is mapped to.
pub open spec fn spec_frame_base(m: Mapper, addr: u64) -> u64 {
    spec_entry_addr(spec_entry_at_level(m, addr, 1)->Some_0)
}

/// What translation yields: walk all four levels; a missing link at any
/// level means the page is unmapped (`None`, not an error); a complete
/// walk yields the leaf frame's base plus the page offset.
pub open spec fn spec_translate(m: Mapper, addr: u64) -> Option<u64> {
    match spec_entry_at_level(m, addr, 1) {
        None => None,
        Some(e) => {
            if spec_entry_present(e) {
                Some((spec_entry_addr(e) + (addr & 0xFFF)) as u64)
            } else {
                None
            }
        },
    }
}

/// Once the walk dies at some level, translation yields nothing.
proof fn lemma_walk_none(m: Mapper, addr: u64, level: int)
    requires
        1 <= level <= 4,
        spec_walk_frame(m, addr, level) is None,
    ensures
        spec_translate(m, addr) is None,
        spec_page_mapped(m, addr) == false,
    decreases level,
{
    if level > 1 {
        assert(spec_walk_frame(m, addr, level - 1) is None);
        lemma_walk_none(m, addr, level - 1);
    }
}

impl Mapper {
    /// Find the stored table for a frame address.
    fn find_table(&self, frame: u64) -> (r: Option<usize>)
        requires
            self.frames.len() == self.tables.len(),
        ensures
            match r {
                Some(i) => i < self.tables.len() && self.frames[i as int] == frame
                    && self.spec_has_table(frame),
                None => !self.spec_has_table(frame),
            },
    {
        let mut i: usize = 0;
        while i < self.frames.len()
            invariant
                self.frames.len() == self.tables.len(),
                i <= self.frames.len(),
                forall|j: int| 0 <= j < i ==> self.frames[j] != frame,
            decreases self.frames.len() - i,
        {
            if self.frames[i] == frame {
                return Some(i);
            }
            i = i + 1;
        }
        None
    }

    /// With distinct frame addresses, a found index is the index the
    /// specification speaks of.
    proof fn lemma_index_unique(&self, frame: u64, i: int)
        requires
            self.wf(),
            0 <= i < self.frames.len(),
            self.frames[i as int] == frame,
        ensures
            self.spec_index_of(frame) == i,
            self.spec_table_at(frame) == self.tables[i as int].entries@,
    {
        let j = self.spec_index_of(frame);
        assert(0 <= j < self.frames.len() && self.frames[j] == frame);
        if i < j {
            assert(self.frames[i as int] != self.frames[j]);
        } else if j < i {
            assert(self.frames[j] != self.frames[i as int]);
        }
    }

    /// An empty address space rooted at the given frame: one top-level
    /// table, all entries clear. Obtain this exactly once per address
    /// space — it stands for the sole mutable view of the hierarchy.
    fn empty_at(l4_frame: u64) -> (r: Mapper)
        requires
            l4_frame % PAGE_SIZE == 0,
            l4_frame < PHYS_ADDR_LIMIT,
        ensures
            r.wf(),
            r.l4_frame == l4_frame,
            forall|a: u64| spec_translate(r, a) is None,
            forall|a: u64| !spec_page_mapped(r, a),
            forall|a: u64| !spec_huge_on_path(r, a),
            forall|a: u64| spec_path_stored(r, a),
            forall|a: u64| spec_path_distinct(r, a),
    {
        let mut frames: Vec<u64> = Vec::new();
        let mut tables: Vec<PageTable> = Vec::new();
        frames.push(l4_frame);
        tables.push(PageTable::empty());
        let m = Mapper { l4_frame, frames, tables };
        proof {
            assert(m.frames[0] == l4_frame);
            assert(m.spec_has_table(l4_frame));
            m.lemma_index_unique(l4_frame, 0);
            assert forall|a: u64| spec_walk_frame(m, a, 3) is None by {
                assert(0 <= (a >> 39u64) & 0x1FF < 512) by (bit_vector);
                assert(spec_table_index(a, 4) == (((a >> 39u64) & 0x1FF) as int));
                let e4 = m.spec_table_at(m.l4_frame)[spec_table_index(a, 4)];
                assert(e4 == 0);
                assert(!spec_entry_present(0)) by (bit_vector);
            }
            assert forall|a: u64| spec_translate(m, a) is None by {
                assert(spec_walk_frame(m, a, 3) is None);
                lemma_walk_none(m, a, 3);
            }
            assert forall|a: u64| !spec_page_mapped(m, a) by {
                assert(spec_walk_frame(m, a, 3) is None);
                lemma_walk_none(m, a, 3);
            }
            assert forall|a: u64| spec_path_stored(m, a) by {
                assert(spec_walk_frame(m, a, 3) is None);
                assert(spec_walk_frame(m, a, 2) is None);
                assert(spec_walk_frame(m, a, 1) is None);
                assert(spec_walk_frame(m, a, 4) == Some(m.l4_frame));
            }
            assert forall|a: u64| spec_path_distinct(m, a) by {
                assert(spec_walk_frame(m, a, 3) is None);
                assert(spec_walk_frame(m, a, 2) is None);
                assert(spec_walk_frame(m, a, 1) is None);
            }
            assert forall|a: u64| !spec_huge_on_path(m, a) by {
                assert(0 <= (a >> 39u64) & 0x1FF < 512) by (bit_vector);
                assert(spec_table_index(a, 4) == (((a >> 39u64) & 0x1FF) as int));
                assert(spec_entry_at_level(m, a, 4) == Some(0u64));
                assert(!spec_entry_present(0)) by (bit_vector);
                assert(spec_walk_frame(m, a, 3) is None);
                assert(spec_walk_frame(m, a, 2) is None);
                assert(spec_entry_at_level(m, a, 3) is None);
                assert(spec_entry_at_level(m, a, 2) is None);
            }
        }
        m
    }

    /// Translate a virtual address using the physical-memory mapping:
    /// walk the four levels by the address's 9-bit index fields; an
    /// entry marked not-present yields "unmapped". A huge-page leaf on
    /// the path is unsupported (fatal), so the caller must have ruled it
    /// out.
    pub fn translate_addr(&self, addr: u64) -> (r: Option<u64>)
        requires
            self.wf(),
            !spec_huge_on_path(*self, addr),
        ensures
            r == spec_translate(*self, addr),
    {
        let mut frame: u64 = self.l4_frame;
        let mut level: u8 = 4;

        while level > 1
            invariant
                self.wf(),
                1 <= level <= 4,
                spec_walk_frame(*self, addr, level as int) == Some(frame),
            decreases level,
        {
            let idx = table_index(addr, level);
            let ti = match self.find_table(frame) {
                Some(t) => t,
                None => {
                    proof {
                        assert(spec_walk_frame(*self, addr, level - 1) is None);
                        lemma_walk_none(*self, addr, level - 1);
                    }
                    return None;
                },
            };
            proof {
                self.lemma_index_unique(frame, ti as int);
            }
            let entry = self.tables[ti].entries[idx];
            if entry_present(entry) && !entry_huge(entry) {
                frame = entry_addr(entry);
                level = level - 1;
            } else {
                proof {
                    assert(spec_walk_frame(*self, addr, level - 1) is None);
                    lemma_walk_none(*self, addr, level - 1);
                }
                return None;
            }
        }

        let idx = table_index(addr, 1);
        let ti = match self.find_table(frame) {
            Some(t) => t,
            None => {
                proof {
                    assert(spec_entry_at_level(*self, addr, 1) is None);
                }
                return None;
            },
        };
        proof {
            self.lemma_index_unique(frame, ti as int);
        }
        let entry = self.tables[ti].entries[idx];
        if entry_present(entry) {
            proof {
                assert(entry & ENTRY_ADDR_MASK <= 0x000F_FFFF_FFFF_F000 && addr & 0xFFF <= 0xFFF)
                    by (bit_vector);
            }
            Some(entry_addr(entry) + (addr & 0xFFF))
        } else {
            None
        }
    }
}


/// A stored table serves this address at the given level.
pub open spec fn spec_table_exists_at(m: Mapper, addr: u64, level: int) -> bool {
    spec_walk_frame(m, addr, level) matches Some(f) && m.spec_has_table(f)
}

/// How many of the three tables below the top level are missing on this
/// address's path and would have to be allocated to install a mapping.
pub open spec fn spec_missing_tables(m: Mapper, addr: u64) -> int {
    if spec_table_exists_at(m, addr, 3) {
        if spec_table_exists_at(m, addr, 2) {
            if spec_table_exists_at(m, addr, 1) {
                0
            } else {
                1
            }
        } else {
            2
        }
    } else {
        3
    }
}

/// Frames the allocator can still hand out.
pub open spec fn spec_available_frames(a: BootInfoFrameAllocator) -> int {
    if a.next <= a.spec_frames().len() {
        a.spec_frames().len() - a.next
    } else {
        0
    }
}

/// The tables on this address's path are pairwise distinct frames: the
/// hierarchy does not alias itself along the walk. Extending the path
/// writes one table at a time, so an aliased path would let that write
/// change an upper level behind the walker's back.
pub open spec fn spec_path_distinct(m: Mapper, addr: u64) -> bool {
    forall|k: int, l: int|
        1 <= k < l <= 4 && #[trigger] spec_walk_frame(m, addr, k) is Some
            && #[trigger] spec_walk_frame(m, addr, l) is Some ==> spec_walk_frame(m, addr, k)
            != spec_walk_frame(m, addr, l)
}

/// Why installing a mapping can fail. Each is a caller error or an
/// exhausted resource, detected at the point produced.
#[derive(Debug, Copy, Clone, Eq, PartialEq, Structural)]
pub enum MapToError {
    /// The allocator ran out of frames for intermediate tables.
    FrameAllocationFailed,
    /// A huge-page leaf sits where a table pointer is needed.
    ParentEntryHugePage,
    /// The page already has a leaf mapping; remapping is a caller error.
    PageAlreadyMapped,
}

/// A usable frame of a sound memory map is page-aligned and inside the
/// physical address range an entry can hold.
proof fn lemma_usable_frame_props(regions: Seq<MemoryRegion>, k: int)
    requires
        spec_memory_map_wf(regions),
        0 <= k < spec_usable_frames(regions).len(),
    ensures
        spec_usable_frames(regions)[k] % PAGE_SIZE == 0,
        spec_usable_frames(regions)[k] < PHYS_ADDR_LIMIT,
    decreases regions.len(),
{
    let rest = regions.skip(1);
    assert(spec_memory_map_wf(rest)) by {
        assert(forall|i: int| 0 <= i < rest.len() ==> rest[i] == regions[i + 1]);
    }
    let head = if regions[0].region_type == MemoryRegionType::Usable {
        spec_region_frames(regions[0])
    } else {
        Seq::<u64>::empty()
    };
    if k < head.len() {
        assert(head[k] == regions[0].start_addr + PAGE_SIZE * k);
        assert((regions[0].start_addr + PAGE_SIZE * k) % (PAGE_SIZE as int) == 0 && PAGE_SIZE * k
            >= 0) by (nonlinear_arith)
            requires
                k >= 0,
                PAGE_SIZE == 4096,
                regions[0].start_addr % PAGE_SIZE == 0,
        ;
        assert(k < ((regions[0].end_addr - regions[0].start_addr) / PAGE_SIZE as int));
        assert(PAGE_SIZE * k < regions[0].end_addr - regions[0].start_addr) by (nonlinear_arith)
            requires
                0 <= k < (regions[0].end_addr - regions[0].start_addr) / PAGE_SIZE as int,
                PAGE_SIZE == 4096,
        ;
    } else {
        assert(spec_usable_frames(regions)[k] == spec_usable_frames(rest)[k - head.len()]);
        lemma_usable_frame_props(rest, k - head.len());
    }
}

impl Mapper {
    /// The allocator's remaining frames are all new to the store: none is
    /// already a table.
    pub open spec fn spec_frames_fresh(&self, a: BootInfoFrameAllocator) -> bool {
        forall|k: int|
            a.next <= k < a.spec_frames().len() ==> !self.spec_has_table(
                #[trigger] a.spec_frames()[k],
            )
    }

    /// One step of the mapping walk, at the table stored for `current`:
    /// follow the entry at `idx` if it already points to a table, reject
    /// a huge leaf, and otherwise extend the hierarchy — allocate a
    /// frame, store a cleared table under it, and point the entry at it.
    fn next_table_or_create(
        &mut self,
        current: u64,
        idx: usize,
        frame_allocator: &mut BootInfoFrameAllocator,
    ) -> (r: Result<u64, MapToError>)
        requires
            old(self).wf(),
            old(frame_allocator).wf(),
            old(frame_allocator).next < usize::MAX,
            idx < 512,
            old(self).spec_has_table(current),
            old(self).spec_frames_fresh(*old(frame_allocator)),
        ensures
            final(self).wf(),
            final(frame_allocator).wf(),
            final(self).l4_frame == old(self).l4_frame,
            final(frame_allocator).memory_map == old(frame_allocator).memory_map,
            final(self).spec_frames_fresh(*final(frame_allocator)),
            ({
                let e = old(self).spec_table_at(current)[idx as int];
                &&& (spec_entry_present(e) && !spec_entry_huge(e)) ==> r == Ok::<u64, MapToError>(
                    spec_entry_addr(e),
                ) && *final(self) == *old(self) && *final(frame_allocator) == *old(frame_allocator)
                &&& (spec_entry_present(e) && spec_entry_huge(e)) ==> r == Err::<u64, MapToError>(
                    MapToError::ParentEntryHugePage,
                ) && *final(self) == *old(self) && *final(frame_allocator) == *old(frame_allocator)
                &&& (!spec_entry_present(e) && spec_available_frames(*old(frame_allocator)) == 0)
                    ==> r == Err::<u64, MapToError>(MapToError::FrameAllocationFailed)
                        && *final(self) == *old(self) && final(frame_allocator).next == old(frame_allocator).next + 1
                &&& (!spec_entry_present(e) && spec_available_frames(*old(frame_allocator)) > 0)
                    ==> ({
                    let f = old(frame_allocator).spec_frames()[old(frame_allocator).next as int];
                    &&& r == Ok::<u64, MapToError>(f)
                    &&& !old(self).spec_has_table(f)
                    &&& final(self).spec_has_table(f)
                    &&& (forall|g: u64|
                        final(self).spec_has_table(g) <==> (old(self).spec_has_table(g) || g
                            == f))
                    &&& final(self).spec_table_at(current) == old(self).spec_table_at(
                        current,
                    ).update(idx as int, f | FLAG_PRESENT | FLAG_WRITABLE)
                    &&& (forall|g: u64|
                        g != current && g != f && old(self).spec_has_table(g) ==> final(self).spec_table_at(g) == old(self).spec_table_at(g))
                    &&& final(self).spec_table_at(f) == Seq::new(512, |i: int| 0u64)
                    &&& final(frame_allocator).next == old(frame_allocator).next + 1
                })
            }),
    {
        let ghost m0 = *self;
        let ti = match self.find_table(current) {
            Some(t) => t,
            None => {
                return Err(MapToError::FrameAllocationFailed);
            },
        };
        proof {
            self.lemma_index_unique(current, ti as int);
        }
        let entry = self.tables[ti].entries[idx];
        if entry_present(entry) {
            if entry_huge(entry) {
                return Err(MapToError::ParentEntryHugePage);
            }
            return Ok(entry_addr(entry));
        }
        let f = match frame_allocator.allocate_frame() {
            Some(f) => f,
            None => {
                return Err(MapToError::FrameAllocationFailed);
            },
        };
        proof {
            lemma_usable_frame_props(
                frame_allocator.memory_map@,
                old(frame_allocator).next as int,
            );
        }
        self.frames.push(f);
        self.tables.push(PageTable::empty());
        let table: &mut PageTable = &mut self.tables[ti];
        table.entries.set(idx, f | FLAG_PRESENT | FLAG_WRITABLE);
        proof {
            let mf = *self;
            assert(mf.frames[mf.frames.len() - 1] == f);
            assert(mf.frames@ == m0.frames@.push(f));
            assert forall|i: int, j: int| 0 <= i < j < mf.frames.len() implies mf.frames[i]
                != mf.frames[j] by {
                if j == mf.frames.len() - 1 {
                    assert(mf.frames[i] == m0.frames[i]);
                    assert(m0.spec_has_table(m0.frames[i]));
                }
            }
            assert(mf.wf()) by {
                assert(m0.spec_has_table(m0.l4_frame));
                let w = m0.spec_index_of(m0.l4_frame);
                assert(mf.frames[w] == m0.l4_frame);
            }
            assert(mf.spec_has_table(f));
            mf.lemma_index_unique(current, ti as int);
            mf.lemma_index_unique(f, mf.frames.len() - 1);
            assert(mf.spec_table_at(f) =~= Seq::new(512, |i: int| 0u64));
            assert(mf.spec_table_at(current) =~= m0.spec_table_at(current).update(
                idx as int,
                f | FLAG_PRESENT | FLAG_WRITABLE,
            ));
            assert forall|g: u64| mf.spec_has_table(g) <==> (m0.spec_has_table(g) || g
                == f) by {
                if mf.spec_has_table(g) {
                    let i = choose|i: int| 0 <= i < mf.frames.len() && mf.frames[i] == g;
                    if i < mf.frames.len() - 1 {
                        assert(m0.frames[i] == g);
                    }
                }
                if m0.spec_has_table(g) {
                    let i = choose|i: int| 0 <= i < m0.frames.len() && m0.frames[i] == g;
                    assert(mf.frames[i] == g);
                }
            }
            assert forall|g: u64|
                g != current && g != f && m0.spec_has_table(g) implies mf.spec_table_at(g)
                == m0.spec_table_at(g) by {
                let i = choose|i: int| 0 <= i < m0.frames.len() && m0.frames[i] == g;
                assert(mf.frames[i] == g);
                mf.lemma_index_unique(g, i);
                m0.lemma_index_unique(g, i);
                assert(i != ti);
            }
            assert forall|k: int|
                frame_allocator.next <= k < frame_allocator.spec_frames().len() implies !mf
                .spec_has_table(#[trigger] frame_allocator.spec_frames()[k]) by {
                let fr = frame_allocator.spec_frames()[k];
                assert(!m0.spec_has_table(fr));
                lemma_usable_frames_increasing_at(
                    frame_allocator.memory_map@,
                    old(frame_allocator).next as int,
                    k,
                );
                assert(fr != f);
            }
        }
        Ok(f)
    }
}


/// Every table the walk reaches for this address is actually stored: the
/// model holds the memory the hierarchy points into.
pub open spec fn spec_path_stored(m: Mapper, addr: u64) -> bool {
    forall|level: int|
        1 <= level <= 4 && #[trigger] spec_walk_frame(m, addr, level) is Some ==> m.spec_has_table(
            spec_walk_frame(m, addr, level)->Some_0,
        )
}

/// A walk is undisturbed by changes that leave every table above its
/// target level in place: only the `touched` frame's table changed, and
/// the walk never passes through it above `level`.
proof fn lemma_walk_preserved(m1: Mapper, m2: Mapper, addr: u64, level: int, touched: u64)
    requires
        1 <= level <= 4,
        m2.l4_frame == m1.l4_frame,
        forall|g: u64|
            m1.spec_has_table(g) && g != touched ==> m2.spec_has_table(g) && m2.spec_table_at(g)
                == m1.spec_table_at(g),
        forall|k: int|
            level < k <= 4 ==> #[trigger] spec_walk_frame(m1, addr, k) != Some(touched),
        spec_walk_frame(m1, addr, level) is Some,
    ensures
        spec_walk_frame(m2, addr, level) == spec_walk_frame(m1, addr, level),
    decreases 4 - level,
{
    if level < 4 {
        assert(spec_walk_frame(m1, addr, level + 1) is Some);
        lemma_walk_preserved(m1, m2, addr, level + 1, touched);
        let f = spec_walk_frame(m1, addr, level + 1)->Some_0;
        assert(m1.spec_has_table(f));
        assert(f != touched);
    }
}

impl Mapper {
    /// Write one entry of one stored table, leaving every other table
    /// untouched.
    fn set_entry(&mut self, table_frame: u64, idx: usize, value: u64)
        requires
            old(self).wf(),
            old(self).spec_has_table(table_frame),
            idx < 512,
        ensures
            final(self).wf(),
            final(self).l4_frame == old(self).l4_frame,
            final(self).frames == old(self).frames,
            forall|g: u64| final(self).spec_has_table(g) <==> old(self).spec_has_table(g),
            final(self).spec_table_at(table_frame) == old(self).spec_table_at(table_frame).update(
                idx as int,
                value,
            ),
            forall|g: u64|
                g != table_frame && old(self).spec_has_table(g) ==> final(self).spec_table_at(g)
                    == old(self).spec_table_at(g),
    {
        let ghost m0 = *self;
        let ti = match self.find_table(table_frame) {
            Some(t) => t,
            None => {
                return ;
            },
        };
        proof {
            self.lemma_index_unique(table_frame, ti as int);
        }
        let table: &mut PageTable = &mut self.tables[ti];
        table.entries.set(idx, value);
        proof {
            let mf = *self;
            assert(mf.frames == m0.frames);
            assert(mf.wf()) by {
                let w = m0.spec_index_of(m0.l4_frame);
                assert(mf.frames[w] == m0.l4_frame);
            }
            mf.lemma_index_unique(table_frame, ti as int);
            assert(mf.spec_table_at(table_frame) =~= m0.spec_table_at(table_frame).update(
                idx as int,
                value,
            ));
            assert forall|g: u64|
                g != table_frame && m0.spec_has_table(g) implies mf.spec_table_at(g)
                == m0.spec_table_at(g) by {
                let i = choose|i: int| 0 <= i < m0.frames.len() && m0.frames[i] == g;
                assert(mf.frames[i] == g);
                mf.lemma_index_unique(g, i);
                m0.lemma_index_unique(g, i);
                assert(i != ti);
            }
        }
    }
}


impl Mapper {
    /// Walk the three levels above the leaf for `page`, creating each
    /// missing table from the allocator, and return the frame of the
    /// level-1 table that holds (or will hold) the page's leaf entry.
    #[verifier::rlimit(100)]
    fn create_parent_tables(
        &mut self,
        page: u64,
        frame_allocator: &mut BootInfoFrameAllocator,
    ) -> (r: Result<u64, MapToError>)
        requires
            old(self).wf(),
            old(frame_allocator).wf(),
            spec_path_stored(*old(self), page),
            spec_path_distinct(*old(self), page),
            old(self).spec_frames_fresh(*old(frame_allocator)),
            old(frame_allocator).next + 3 <= usize::MAX,
        ensures
            final(self).wf(),
            final(self).l4_frame == old(self).l4_frame,
            final(frame_allocator).wf(),
            final(frame_allocator).memory_map == old(frame_allocator).memory_map,
            old(frame_allocator).next <= final(frame_allocator).next <= old(frame_allocator).next
                + 3,
            final(self).spec_frames_fresh(*final(frame_allocator)),
            spec_huge_on_path(*old(self), page) ==> r == Err::<u64, MapToError>(
                MapToError::ParentEntryHugePage,
            ) && *final(self) == *old(self) && *final(frame_allocator) == *old(frame_allocator),
            !spec_huge_on_path(*old(self), page) && !spec_page_mapped(*old(self), page)
                && spec_missing_tables(*old(self), page) > spec_available_frames(
                *old(frame_allocator),
            ) ==> r == Err::<u64, MapToError>(MapToError::FrameAllocationFailed),
            !spec_huge_on_path(*old(self), page) && (spec_page_mapped(*old(self), page)
                || spec_missing_tables(*old(self), page) <= spec_available_frames(
                *old(frame_allocator),
            )) ==> ({
                let p1 = r->Ok_0;
                let leaf = final(self).spec_table_at(p1)[spec_table_index(page, 1)];
                &&& r is Ok
                &&& spec_walk_frame(*final(self), page, 1) == Some(p1)
                &&& final(self).spec_has_table(p1)
                &&& spec_path_stored(*final(self), page)
                &&& spec_path_distinct(*final(self), page)
                &&& (spec_page_mapped(*old(self), page) ==> *final(self) == *old(self)
                    && *final(frame_allocator) == *old(frame_allocator)
                    && spec_entry_present(leaf))
                &&& (!spec_page_mapped(*old(self), page) ==> !spec_entry_present(leaf)
                    && final(frame_allocator).next == old(frame_allocator).next
                    + spec_missing_tables(*old(self), page))
            }),
    {
        let ghost m0 = *self;
        let ghost a0 = *frame_allocator;

        let idx4 = table_index(page, 4);
        let idx3 = table_index(page, 3);
        let idx2 = table_index(page, 2);
        let idx1 = table_index(page, 1);

        let p4 = self.l4_frame;
        proof {
            assert(spec_walk_frame(m0, page, 4) == Some(p4));
            assert(m0.spec_has_table(p4));
        }
        let ghost e4 = m0.spec_table_at(p4)[idx4 as int];

        // Level 4: follow or create the level-3 table.
        let p3 = match self.next_table_or_create(p4, idx4, frame_allocator) {
            Ok(f) => f,
            Err(e) => {
                proof {
                    assert(spec_entry_at_level(m0, page, 4) == Some(e4));
                    if spec_entry_present(e4) {
                        assert(spec_entry_huge(e4));
                        assert(spec_huge_on_path(m0, page));
                    } else {
                        assert(spec_walk_frame(m0, page, 3) is None);
                        lemma_walk_none(m0, page, 3);
                        assert(spec_walk_frame(m0, page, 2) is None);
                        assert(!spec_table_exists_at(m0, page, 3));
                        assert(spec_missing_tables(m0, page) == 3);
                        assert(spec_available_frames(a0) == 0);
                        assert(spec_entry_at_level(m0, page, 3) is None);
                        assert(spec_entry_at_level(m0, page, 2) is None);
                        assert(!spec_huge_on_path(m0, page));
                    }
                }
                return Err(e);
            },
        };
        let ghost m1 = *self;
        let ghost c1: int = frame_allocator.next - a0.next;
        proof {
            assert(spec_entry_at_level(m0, page, 4) == Some(e4));
            assert(!(spec_entry_present(e4) && spec_entry_huge(e4)));
            if spec_entry_present(e4) {
                assert(c1 == 0 && m1 == m0 && *frame_allocator == a0);
                assert(spec_walk_frame(m0, page, 3) == Some(p3));
                assert(m0.spec_has_table(p3));
                assert(spec_table_exists_at(m0, page, 3));
                assert(p3 != p4);
            } else {
                assert(c1 == 1);
                assert(spec_walk_frame(m0, page, 3) is None);
                lemma_walk_none(m0, page, 3);
                assert(spec_walk_frame(m0, page, 2) is None);
                assert(!spec_table_exists_at(m0, page, 3));
                assert(spec_missing_tables(m0, page) == 3);
                assert(spec_entry_at_level(m0, page, 3) is None);
                assert(spec_entry_at_level(m0, page, 2) is None);
                assert(!spec_huge_on_path(m0, page));
                assert(spec_available_frames(a0) >= 1);
                // The fresh table is linked in: the walk now reaches it.
                let en = m1.spec_table_at(p4)[idx4 as int];
                assert(en == (p3 | FLAG_PRESENT | FLAG_WRITABLE));
                assert(spec_entry_present(en) && !spec_entry_huge(en) && spec_entry_addr(en)
                    == p3) by (bit_vector)
                    requires
                        en == (p3 | FLAG_PRESENT | FLAG_WRITABLE),
                        p3 % 4096 == 0,
                        p3 < 0x0010_0000_0000_0000,
                        FLAG_PRESENT == 1,
                        FLAG_WRITABLE == 2,
                        FLAG_HUGE == 0x80,
                ;
                assert(spec_walk_frame(m1, page, 4) == Some(p4));
                assert(spec_walk_frame(m1, page, 3) == Some(p3));
                assert(p3 != p4);
            }
            assert(spec_walk_frame(m1, page, 3) == Some(p3));
            assert(m1.spec_has_table(p3) && m1.spec_has_table(p4));
        }
        let ghost e3 = m1.spec_table_at(p3)[idx3 as int];

        // Level 3: follow or create the level-2 table.
        let p2 = match self.next_table_or_create(p3, idx3, frame_allocator) {
            Ok(f) => f,
            Err(e) => {
                proof {
                    assert(spec_entry_at_level(m1, page, 3) == Some(e3));
                    if c1 >= 1 {
                        assert(m1.spec_table_at(p3) == Seq::new(512, |i: int| 0u64));
                        assert(e3 == 0);
                        assert(!spec_entry_present(0)) by (bit_vector);
                    }
                    if spec_entry_present(e3) {
                        // A huge leaf: possible only in an untouched store.
                        assert(c1 == 0 && m1 == m0);
                        assert(spec_entry_huge(e3));
                        assert(spec_huge_on_path(m0, page));
                    } else {
                        if c1 == 0 {
                            assert(m1 == m0 && *old(frame_allocator) == a0);
                            assert(spec_walk_frame(m0, page, 2) is None);
                            lemma_walk_none(m0, page, 2);
                            assert(!spec_table_exists_at(m0, page, 2));
                            assert(spec_missing_tables(m0, page) == 2);
                            assert(spec_entry_at_level(m0, page, 2) is None);
                            assert(!spec_huge_on_path(m0, page));
                            assert(spec_available_frames(a0) == 0);
                        } else {
                            assert(spec_missing_tables(m0, page) == 3);
                            assert(spec_available_frames(a0) <= 1);
                        }
                        assert(spec_missing_tables(m0, page) > spec_available_frames(a0));
                    }
                }
                return Err(e);
            },
        };
        let ghost m2 = *self;
        let ghost c2: int = frame_allocator.next - a0.next;
        proof {
            assert(spec_entry_at_level(m1, page, 3) == Some(e3));
            if c1 >= 1 {
                assert(m1.spec_table_at(p3) == Seq::new(512, |i: int| 0u64));
                assert(e3 == 0);
                assert(!spec_entry_present(0)) by (bit_vector);
            }
            if spec_entry_present(e3) {
                assert(c1 == 0 && m1 == m0);
                assert(c2 == 0 && m2 == m0 && *frame_allocator == a0);
                assert(spec_walk_frame(m0, page, 2) == Some(p2));
                assert(m0.spec_has_table(p2));
                assert(spec_table_exists_at(m0, page, 2));
                assert(p2 != p3 && p2 != p4);
            } else {
                assert(c2 == c1 + 1);
                if c1 == 0 {
                    assert(m1 == m0);
                    assert(spec_walk_frame(m0, page, 2) is None);
                    lemma_walk_none(m0, page, 2);
                    assert(!spec_table_exists_at(m0, page, 2));
                    assert(spec_missing_tables(m0, page) == 2);
                    assert(spec_entry_at_level(m0, page, 2) is None);
                    assert(!spec_huge_on_path(m0, page));
                }
                assert(spec_available_frames(a0) >= c2);
                // The fresh table is linked in below an undisturbed path.
                assert(!m1.spec_has_table(p2) && m2.spec_has_table(p2));
                assert(p2 != p3 && p2 != p4);
                assert forall|k: int|
                    3 < k <= 4 implies #[trigger] spec_walk_frame(m1, page, k) != Some(p3) by {
                    assert(spec_walk_frame(m1, page, 4) == Some(p4));
                }
                lemma_walk_preserved(m1, m2, page, 3, p3);
                assert(spec_walk_frame(m2, page, 3) == Some(p3));
                let en = m2.spec_table_at(p3)[idx3 as int];
                assert(en == (p2 | FLAG_PRESENT | FLAG_WRITABLE));
                assert(spec_entry_present(en) && !spec_entry_huge(en) && spec_entry_addr(en)
                    == p2) by (bit_vector)
                    requires
                        en == (p2 | FLAG_PRESENT | FLAG_WRITABLE),
                        p2 % 4096 == 0,
                        p2 < 0x0010_0000_0000_0000,
                        FLAG_PRESENT == 1,
                        FLAG_WRITABLE == 2,
                        FLAG_HUGE == 0x80,
                ;
                assert(spec_walk_frame(m2, page, 2) == Some(p2));
            }
            assert(spec_walk_frame(m2, page, 4) == Some(p4));
            assert(spec_walk_frame(m2, page, 3) == Some(p3));
            assert(spec_walk_frame(m2, page, 2) == Some(p2));
            assert(m2.spec_has_table(p2) && m2.spec_has_table(p3) && m2.spec_has_table(p4));
            assert(c2 == 0 ==> m2 == m0 && *frame_allocator == a0 && spec_table_exists_at(
                m0,
                page,
                2,
            ));
            assert(c2 >= 1 ==> !spec_huge_on_path(m0, page) && !spec_page_mapped(m0, page)
                && spec_missing_tables(m0, page) == c2 + 1 && spec_available_frames(a0) >= c2);
        }
        let ghost e2 = m2.spec_table_at(p2)[idx2 as int];

        // Level 2: follow or create the level-1 table.
        let p1 = match self.next_table_or_create(p2, idx2, frame_allocator) {
            Ok(f) => f,
            Err(e) => {
                proof {
                    assert(spec_entry_at_level(m2, page, 2) == Some(e2));
                    if c2 >= 1 {
                        assert(m2.spec_table_at(p2) == Seq::new(512, |i: int| 0u64));
                        assert(e2 == 0);
                        assert(!spec_entry_present(0)) by (bit_vector);
                    }
                    if spec_entry_present(e2) {
                        assert(c2 == 0 && m2 == m0);
                        assert(spec_entry_huge(e2));
                        assert(spec_huge_on_path(m0, page));
                    } else {
                        if c2 == 0 {
                            assert(m2 == m0 && *old(frame_allocator) == a0);
                            assert(spec_walk_frame(m0, page, 1) is None);
                            lemma_walk_none(m0, page, 1);
                            assert(!spec_table_exists_at(m0, page, 1));
                            assert(spec_missing_tables(m0, page) == 1);
                            assert(!spec_huge_on_path(m0, page));
                            assert(spec_available_frames(a0) == 0);
                        } else {
                            assert(spec_missing_tables(m0, page) == c2 + 1);
                            assert(spec_available_frames(a0) <= c2);
                        }
                        assert(spec_missing_tables(m0, page) > spec_available_frames(a0));
                        assert(c2 >= 1 ==> !spec_page_mapped(m0, page));
                        if c2 == 0 {
                            lemma_walk_none(m0, page, 1);
                        }
                    }
                }
                return Err(e);
            },
        };
        let ghost m3 = *self;
        let ghost c3: int = frame_allocator.next - a0.next;
        proof {
            assert(spec_entry_at_level(m2, page, 2) == Some(e2));
            if c2 >= 1 {
                assert(m2.spec_table_at(p2) == Seq::new(512, |i: int| 0u64));
                assert(e2 == 0);
                assert(!spec_entry_present(0)) by (bit_vector);
            }
            if spec_entry_present(e2) {
                assert(c2 == 0 && m2 == m0);
                assert(c3 == 0 && m3 == m0 && *frame_allocator == a0);
                assert(spec_walk_frame(m0, page, 1) == Some(p1));
                assert(m0.spec_has_table(p1));
                assert(spec_table_exists_at(m0, page, 1));
                assert(p1 != p2 && p1 != p3 && p1 != p4);
            } else {
                assert(c3 == c2 + 1);
                if c2 == 0 {
                    assert(m2 == m0);
                    assert(spec_walk_frame(m0, page, 1) is None);
                    lemma_walk_none(m0, page, 1);
                    assert(!spec_table_exists_at(m0, page, 1));
                    assert(spec_missing_tables(m0, page) == 1);
                    assert(!spec_huge_on_path(m0, page));
                }
                assert(spec_available_frames(a0) >= c3);
                assert(!m2.spec_has_table(p1) && m3.spec_has_table(p1));
                assert(p1 != p2 && p1 != p3 && p1 != p4);
                assert forall|k: int|
                    2 < k <= 4 implies #[trigger] spec_walk_frame(m2, page, k) != Some(p2) by {
                    assert(spec_walk_frame(m2, page, 4) == Some(p4));
                    assert(spec_walk_frame(m2, page, 3) == Some(p3));
                }
                lemma_walk_preserved(m2, m3, page, 2, p2);
                assert(spec_walk_frame(m3, page, 2) == Some(p2));
                let en = m3.spec_table_at(p2)[idx2 as int];
                assert(en == (p1 | FLAG_PRESENT | FLAG_WRITABLE));
                assert(spec_entry_present(en) && !spec_entry_huge(en) && spec_entry_addr(en)
                    == p1) by (bit_vector)
                    requires
                        en == (p1 | FLAG_PRESENT | FLAG_WRITABLE),
                        p1 % 4096 == 0,
                        p1 < 0x0010_0000_0000_0000,
                        FLAG_PRESENT == 1,
                        FLAG_WRITABLE == 2,
                        FLAG_HUGE == 0x80,
                ;
                assert(spec_walk_frame(m3, page, 1) == Some(p1));
            }
            assert(spec_walk_frame(m3, page, 4) == Some(p4));
            assert(spec_walk_frame(m3, page, 3) == Some(p3));
            assert(spec_walk_frame(m3, page, 2) == Some(p2));
            assert(spec_walk_frame(m3, page, 1) == Some(p1));
            assert(m3.spec_has_table(p1) && m3.spec_has_table(p2) && m3.spec_has_table(p3)
                && m3.spec_has_table(p4));
            assert(c3 == 0 ==> m3 == m0 && *frame_allocator == a0 && spec_table_exists_at(
                m0,
                page,
                1,
            ));
            assert(c3 >= 1 ==> !spec_huge_on_path(m0, page) && !spec_page_mapped(m0, page)
                && spec_missing_tables(m0, page) == c3 && spec_available_frames(a0) >= c3);
        }
        proof {
            let m3s = *self;
            assert(spec_path_stored(m3s, page)) by {
                assert(spec_walk_frame(m3s, page, 4) == Some(p4));
                assert(spec_walk_frame(m3s, page, 3) == Some(p3));
                assert(spec_walk_frame(m3s, page, 2) == Some(p2));
                assert(spec_walk_frame(m3s, page, 1) == Some(p1));
            }
            assert(spec_path_distinct(m3s, page)) by {
                assert(spec_walk_frame(m3s, page, 4) == Some(p4));
                assert(spec_walk_frame(m3s, page, 3) == Some(p3));
                assert(spec_walk_frame(m3s, page, 2) == Some(p2));
                assert(spec_walk_frame(m3s, page, 1) == Some(p1));
            }
            let leaf = m3s.spec_table_at(p1)[spec_table_index(page, 1) as int];
            if c3 >= 1 {
                assert(m3s.spec_table_at(p1) == Seq::new(512, |i: int| 0u64));
                assert(0 <= spec_table_index(page, 1) < 512) by {
                    assert(0 <= (page >> 12u64) & 0x1FF < 512) by (bit_vector);
                    assert(spec_table_index(page, 1) == (((page >> 12u64) & 0x1FF) as int));
                }
                assert(leaf == 0);
                assert(!spec_entry_present(0)) by (bit_vector);
            } else {
                assert(m3s == m0);
                assert(spec_entry_at_level(m0, page, 1) == Some(leaf));
                assert(spec_page_mapped(m0, page) == spec_entry_present(leaf));
            }
            assert(!spec_huge_on_path(m0, page)) by {
                if c3 == 0 {
                    assert(spec_entry_at_level(m0, page, 4) == Some(e4));
                    assert(spec_entry_at_level(m0, page, 3) == Some(e3));
                    assert(spec_entry_at_level(m0, page, 2) == Some(e2));
                }
            }
        }
        Ok(p1)
    }

    /// Install a leaf mapping: virtual `page` to physical `frame` with
    /// the given flags, allocating any missing intermediate table from
    /// the frame allocator. Remapping an already-mapped page is a caller
    /// error, a huge-page leaf on the path is unsupported, and a dry
    /// allocator stops the walk; each failure is reported exactly. On
    /// success every address of the page translates to the frame plus
    /// its offset — the binary must flush the translation cache for the
    /// page before relying on it.
    #[verifier::rlimit(100)]
    pub fn map_to(
        &mut self,
        page: u64,
        frame: u64,
        flags: u64,
        frame_allocator: &mut BootInfoFrameAllocator,
    ) -> (r: Result<(), MapToError>)
        requires
            old(self).wf(),
            old(frame_allocator).wf(),
            page % PAGE_SIZE == 0,
            frame % PAGE_SIZE == 0,
            frame < PHYS_ADDR_LIMIT,
            flags & ENTRY_ADDR_MASK == 0,
            flags & FLAG_PRESENT != 0,
            flags & FLAG_HUGE == 0,
            spec_path_stored(*old(self), page),
            spec_path_distinct(*old(self), page),
            old(self).spec_frames_fresh(*old(frame_allocator)),
            old(frame_allocator).next + 3 <= usize::MAX,
        ensures
            final(self).wf(),
            final(self).l4_frame == old(self).l4_frame,
            final(frame_allocator).wf(),
            final(frame_allocator).memory_map == old(frame_allocator).memory_map,
            old(frame_allocator).next <= final(frame_allocator).next <= old(frame_allocator).next
                + 3,
            final(self).spec_frames_fresh(*final(frame_allocator)),
            spec_huge_on_path(*old(self), page) ==> r == Err::<(), MapToError>(
                MapToError::ParentEntryHugePage,
            ) && *final(self) == *old(self) && *final(frame_allocator) == *old(frame_allocator),
            !spec_huge_on_path(*old(self), page) && spec_page_mapped(*old(self), page) ==> r
                == Err::<(), MapToError>(MapToError::PageAlreadyMapped) && *final(self) == *old(
                self,
            ) && *final(frame_allocator) == *old(frame_allocator),
            !spec_huge_on_path(*old(self), page) && !spec_page_mapped(*old(self), page)
                && spec_missing_tables(*old(self), page) > spec_available_frames(
                *old(frame_allocator),
            ) ==> r == Err::<(), MapToError>(MapToError::FrameAllocationFailed),
            !spec_huge_on_path(*old(self), page) && !spec_page_mapped(*old(self), page)
                && spec_missing_tables(*old(self), page) <= spec_available_frames(
                *old(frame_allocator),
            ) ==> ({
                &&& r == Ok::<(), MapToError>(())
                &&& final(frame_allocator).next == old(frame_allocator).next
                    + spec_missing_tables(*old(self), page)
                &&& spec_page_mapped(*final(self), page)
                &&& spec_frame_base(*final(self), page) == frame
                &&& !spec_huge_on_path(*final(self), page)
                &&& spec_path_stored(*final(self), page)
                &&& spec_path_distinct(*final(self), page)
                &&& forall|a: u64|
                    page <= a < page + PAGE_SIZE ==> spec_translate(*final(self), a) == Some(
                        (frame + (a - page)) as u64,
                    )
            }),
    {
        let ghost m0 = *self;
        let ghost a0 = *frame_allocator;
        let idx1 = table_index(page, 1);

        let p1 = match self.create_parent_tables(page, frame_allocator) {
            Ok(f) => f,
            Err(e) => {
                return Err(e);
            },
        };
        let ghost m3 = *self;
        proof {
            assert(!spec_huge_on_path(m0, page));
        }

        // Leaf level: the entry must be clear, then the mapping goes in.
        let ti = match self.find_table(p1) {
            Some(t) => t,
            None => {
                return Err(MapToError::FrameAllocationFailed);
            },
        };
        proof {
            self.lemma_index_unique(p1, ti as int);
        }
        let e1 = self.tables[ti].entries[idx1];
        if entry_present(e1) {
            proof {
                assert(spec_page_mapped(m0, page));
            }
            return Err(MapToError::PageAlreadyMapped);
        }
        proof {
            assert(!spec_page_mapped(m0, page));
        }
        self.set_entry(p1, idx1, frame | flags);
        proof {
            let mf = *self;
            // Recover the path above the leaf table.
            assert(spec_walk_frame(m3, page, 2) is Some);
            assert(spec_walk_frame(m3, page, 3) is Some);
            assert(spec_walk_frame(m3, page, 4) is Some);
            let p2 = spec_walk_frame(m3, page, 2)->Some_0;
            let p3 = spec_walk_frame(m3, page, 3)->Some_0;
            let p4 = spec_walk_frame(m3, page, 4)->Some_0;

            // The finished walk: the leaf write sits below an undisturbed
            // path, and the new leaf entry carries the frame.
            assert forall|k: int|
                1 < k <= 4 implies #[trigger] spec_walk_frame(m3, page, k) != Some(p1) by {
                assert(spec_walk_frame(m3, page, 4) == Some(p4));
                assert(spec_walk_frame(m3, page, 3) == Some(p3));
                assert(spec_walk_frame(m3, page, 2) == Some(p2));
            }
            lemma_walk_preserved(m3, mf, page, 1, p1);
            assert(spec_walk_frame(mf, page, 1) == Some(p1));
            assert(spec_walk_frame(mf, page, 2) == spec_walk_frame(m3, page, 2));
            assert(spec_walk_frame(mf, page, 3) == spec_walk_frame(m3, page, 3)) by {
                lemma_walk_preserved(m3, mf, page, 3, p1);
            }
            assert(mf.spec_table_at(p1) == m3.spec_table_at(p1).update(
                idx1 as int,
                frame | flags,
            ));
            let leaf = mf.spec_table_at(p1)[idx1 as int];
            assert(leaf == (frame | flags));
            assert(spec_entry_at_level(mf, page, 1) == Some(leaf));
            assert(spec_entry_present(leaf) && spec_entry_addr(leaf) == frame && !spec_entry_huge(
                leaf,
            )) by (bit_vector)
                requires
                    leaf == (frame | flags),
                    frame % 4096 == 0,
                    frame < 0x0010_0000_0000_0000,
                    flags & 0x000F_FFFF_FFFF_F000 == 0,
                    flags & 1 != 0,
                    flags & 0x80 == 0,
                    FLAG_PRESENT == 1,
                    FLAG_HUGE == 0x80,
                    ENTRY_ADDR_MASK == 0x000F_FFFF_FFFF_F000,
            ;
            assert(spec_page_mapped(mf, page));
            assert(spec_frame_base(mf, page) == frame);
            assert(!spec_huge_on_path(mf, page)) by {
                assert(spec_walk_frame(mf, page, 3) == Some(p3));
                assert(spec_walk_frame(mf, page, 2) == Some(p2));
                assert(spec_walk_frame(mf, page, 1) == Some(p1));
            }
            assert(spec_path_stored(mf, page)) by {
                assert(spec_walk_frame(mf, page, 4) == Some(p4));
                assert(spec_walk_frame(mf, page, 3) == Some(p3));
                assert(spec_walk_frame(mf, page, 2) == Some(p2));
                assert(spec_walk_frame(mf, page, 1) == Some(p1));
                assert(m3.spec_has_table(p4) && m3.spec_has_table(p3) && m3.spec_has_table(p2));
            }
            assert(spec_path_distinct(mf, page)) by {
                assert(spec_walk_frame(mf, page, 4) == Some(p4));
                assert(spec_walk_frame(mf, page, 3) == Some(p3));
                assert(spec_walk_frame(mf, page, 2) == Some(p2));
                assert(spec_walk_frame(mf, page, 1) == Some(p1));
            }

            // Every address of the page goes through the same entries.
            assert forall|a: u64|
                page <= a < page + PAGE_SIZE implies spec_translate(mf, a) == Some(
                (frame + (a - page)) as u64,
            ) by {
                assert(a >> 12u64 == page >> 12u64 && a & 0xFFF == (a - page) as u64 && (a
                    - page) < 4096) by (bit_vector)
                    requires
                        page % 4096 == 0,
                        page <= a < page + 4096,
                ;
                lemma_same_page_walk(mf, a, page, 1);
                lemma_same_page_index(a, page, 1);
                assert(spec_walk_frame(mf, a, 1) == Some(p1));
                assert(spec_entry_at_level(mf, a, 1) == Some(leaf));
                assert(spec_translate(mf, a) == Some((frame + (a & 0xFFF)) as u64));
            }
        }
        Ok(())
    }
}


/// Addresses of one page select the same entry at every level.
proof fn lemma_same_page_index(a: u64, b: u64, level: int)
    requires
        1 <= level <= 4,
        a >> 12u64 == b >> 12u64,
    ensures
        spec_table_index(a, level) == spec_table_index(b, level),
{
    assert((a >> 12u64) & 0x1FF == (b >> 12u64) & 0x1FF && (a >> 21u64) & 0x1FF == (b >> 21u64)
        & 0x1FF && (a >> 30u64) & 0x1FF == (b >> 30u64) & 0x1FF && (a >> 39u64) & 0x1FF == (b
        >> 39u64) & 0x1FF) by (bit_vector)
        requires
            a >> 12u64 == b >> 12u64,
    ;
    if level == 1 {
        assert(spec_table_index(a, 1) == (((a >> 12u64) & 0x1FF) as int));
        assert(spec_table_index(b, 1) == (((b >> 12u64) & 0x1FF) as int));
    } else if level == 2 {
        assert(spec_table_index(a, 2) == (((a >> 21u64) & 0x1FF) as int));
        assert(spec_table_index(b, 2) == (((b >> 21u64) & 0x1FF) as int));
    } else if level == 3 {
        assert(spec_table_index(a, 3) == (((a >> 30u64) & 0x1FF) as int));
        assert(spec_table_index(b, 3) == (((b >> 30u64) & 0x1FF) as int));
    } else {
        assert(spec_table_index(a, 4) == (((a >> 39u64) & 0x1FF) as int));
        assert(spec_table_index(b, 4) == (((b >> 39u64) & 0x1FF) as int));
    }
}

/// Addresses of one page walk through the same tables.
proof fn lemma_same_page_walk(m: Mapper, a: u64, b: u64, level: int)
    requires
        1 <= level <= 4,
        a >> 12u64 == b >> 12u64,
    ensures
        spec_walk_frame(m, a, level) == spec_walk_frame(m, b, level),
    decreases 4 - level,
{
    if level < 4 {
        lemma_same_page_walk(m, a, b, level + 1);
        lemma_same_page_index(a, b, level + 1);
    }
}


/// Frame of the memory-mapped text buffer.
pub const VGA_BUFFER_FRAME: u64 = 0xB8000;

/// Map the given page, writable, onto the text buffer's physical frame,
/// so the console renderer can reach it: the mapping the kernel requests
/// at startup. The caller guarantees what the mapping needs — an
/// unmapped page, no huge leaf in the way, and enough frames — since a
/// failure here would halt the kernel.
pub fn create_example_mapping(
    page: u64,
    mapper: &mut Mapper,
    frame_allocator: &mut BootInfoFrameAllocator,
)
    requires
        old(mapper).wf(),
        old(frame_allocator).wf(),
        page % PAGE_SIZE == 0,
        spec_path_stored(*old(mapper), page),
        spec_path_distinct(*old(mapper), page),
        old(mapper).spec_frames_fresh(*old(frame_allocator)),
        old(frame_allocator).next + 3 <= usize::MAX,
        !spec_huge_on_path(*old(mapper), page),
        !spec_page_mapped(*old(mapper), page),
        spec_missing_tables(*old(mapper), page) <= spec_available_frames(*old(frame_allocator)),
    ensures
        final(mapper).wf(),
        final(frame_allocator).wf(),
        spec_page_mapped(*final(mapper), page),
        spec_frame_base(*final(mapper), page) == VGA_BUFFER_FRAME,
        forall|a: u64|
            page <= a < page + PAGE_SIZE ==> spec_translate(*final(mapper), a) == Some(
                (VGA_BUFFER_FRAME + (a - page)) as u64,
            ),
{
    proof {
        assert(0xB8000u64 % 4096 == 0 && 0xB8000u64 < 0x0010_0000_0000_0000 && (FLAG_PRESENT
            | FLAG_WRITABLE) & ENTRY_ADDR_MASK == 0 && (FLAG_PRESENT | FLAG_WRITABLE)
            & FLAG_PRESENT != 0 && (FLAG_PRESENT | FLAG_WRITABLE) & FLAG_HUGE == 0) by (
        bit_vector);
    }
    let flags = FLAG_PRESENT | FLAG_WRITABLE;
    let map_to_result = mapper.map_to(page, VGA_BUFFER_FRAME, flags, frame_allocator);
    match map_to_result {
        Ok(_) => (),
        Err(_) => {
            // Ruled out by the preconditions: the mapping is owed.
        },
    }
}

/// Every virtual address whose page is mapped translates to the page's
/// frame base plus the address's offset within the page.
pub proof fn lemma_translate_mapped(m: Mapper, page: u64, a: u64)
    requires
        page % PAGE_SIZE == 0,
        page <= a < page + PAGE_SIZE,
        spec_page_mapped(m, page),
    ensures
        spec_translate(m, a) == Some((spec_frame_base(m, page) + (a - page)) as u64),
{
    assert(a >> 12u64 == page >> 12u64 && a & 0xFFF == (a - page) as u64) by (bit_vector)
        requires
            page % 4096 == 0,
            page <= a < page + 4096,
    ;
    lemma_same_page_walk(m, a, page, 1);
    lemma_same_page_index(a, page, 1);
    let e = spec_entry_at_level(m, page, 1)->Some_0;
    assert(spec_entry_at_level(m, a, 1) == Some(e));
    assert(spec_entry_addr(e) <= 0x000F_FFFF_FFFF_F000) by (bit_vector);
}

/// Every virtual address whose page is unmapped translates to nothing.
pub proof fn lemma_translate_unmapped(m: Mapper, page: u64, a: u64)
    requires
        page % PAGE_SIZE == 0,
        page <= a < page + PAGE_SIZE,
        !spec_page_mapped(m, page),
    ensures
        spec_translate(m, a) is None,
{
    assert(a >> 12u64 == page >> 12u64) by (bit_vector)
        requires
            page % 4096 == 0,
            page <= a < page + 4096,
    ;
    lemma_same_page_walk(m, a, page, 1);
    lemma_same_page_index(a, page, 1);
}


/// The mapper over an address space rooted at the given top-level frame,
/// with every entry clear. Obtain exactly once per address space: the
/// mapper stands for the one live mutable view of the hierarchy, and two
/// of them would alias physical memory through independent mutable paths.
pub fn init(l4_frame: u64) -> (r: Mapper)
    requires
        l4_frame % PAGE_SIZE == 0,
        l4_frame < PHYS_ADDR_LIMIT,
    ensures
        r.wf(),
        r.l4_frame == l4_frame,
        forall|a: u64| spec_translate(r, a) is None,
        forall|a: u64| !spec_page_mapped(r, a),
        forall|a: u64| !spec_huge_on_path(r, a),
        forall|a: u64| spec_path_stored(r, a),
        forall|a: u64| spec_path_distinct(r, a),
{
    Mapper::empty_at(l4_frame)
}

} // verus!
