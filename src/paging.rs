//! Page-table mapper: the four-level translation hierarchy of the address
//! space, with each table named by the virtual-address prefix it translates.
use std::collections::BTreeMap;

use vstd::prelude::*;

use crate::frame::KernelFrameAllocator;

verus! {

broadcast use vstd::std_specs::btree::group_btree_axioms;

/// Entry flag: the translation is valid.
pub const PRESENT: u64 = 1;

/// Entry flag: writes through the translation are allowed.
pub const WRITABLE: u64 = 2;

/// Number of virtual pages in the 48-bit address space.
pub const PAGE_COUNT: u64 = 0x10_0000_0000;

/// Pages translated by one level-1 table.
pub const LEVEL_1_SPAN: u64 = 512;

/// Pages translated by one level-2 table.
pub const LEVEL_2_SPAN: u64 = 0x4_0000;

/// Pages translated by one level-3 table.
pub const LEVEL_3_SPAN: u64 = 0x800_0000;

/// The leaf entry of a mapped page.
#[derive(Clone, Copy, Debug, PartialEq, Eq, Structural)]
pub struct Mapping {
    pub frame: u64,
    pub flags: u64,
}

/// Why a page could not be mapped.
#[derive(Clone, Copy, Debug, PartialEq, Eq, Structural)]
pub enum MapToError {
    /// An intermediate table was missing and the frame allocator had no frame
    /// left to hold it.
    FrameAllocationFailed,
    /// The page already has a leaf entry, which points to the given frame.
    PageAlreadyMapped(u64),
}

/// Key of the level-3 table that translates `page` (its level-4 index).
pub open spec fn level_3_key(page: u64) -> u64 {
    page / LEVEL_3_SPAN
}

/// Key of the level-2 table that translates `page`.
pub open spec fn level_2_key(page: u64) -> u64 {
    page / LEVEL_2_SPAN
}

/// Key of the level-1 table that translates `page`.
pub open spec fn level_1_key(page: u64) -> u64 {
    page / LEVEL_1_SPAN
}

/// One if `key` names no table in `tables`, else zero.
pub open spec fn absent(tables: Set<u64>, key: u64) -> nat {
    if tables.contains(key) {
        0
    } else {
        1
    }
}

/// The translation hierarchy of the active address space, reached through a
/// linear mapping of all physical memory at `physical_memory_offset`.
pub struct OffsetPageTable {
    physical_memory_offset: u64,
    level_4_frame: u64,
    level_3_tables: BTreeMap<u64, u64>,
    level_2_tables: BTreeMap<u64, u64>,
    level_1_tables: BTreeMap<u64, u64>,
    pages: BTreeMap<u64, Mapping>,
}

/// Wraps the root table, found at physical address `level_4_frame`, of an
/// address space whose physical memory is mapped at `physical_memory_offset`.
pub fn init(physical_memory_offset: u64, level_4_frame: u64) -> (res: OffsetPageTable)
    ensures
        res.wf(),
        res.physical_memory_offset() == physical_memory_offset,
        res.level_4_frame() == level_4_frame,
        res.tables(3) == Set::<u64>::empty(),
        res.tables(2) == Set::<u64>::empty(),
        res.tables(1) == Set::<u64>::empty(),
        res.mappings() == Map::<u64, Mapping>::empty(),
{
    OffsetPageTable {
        physical_memory_offset,
        level_4_frame,
        level_3_tables: BTreeMap::new(),
        level_2_tables: BTreeMap::new(),
        level_1_tables: BTreeMap::new(),
        pages: BTreeMap::new(),
    }
}

/// Virtual address at which the physical address `phys` can be reached, or
/// `None` where the sum leaves the address space.
pub fn phys_to_virt(physical_memory_offset: u64, phys: u64) -> (res: Option<u64>)
    ensures
        res == if physical_memory_offset + phys <= u64::MAX {
            Some((physical_memory_offset + phys) as u64)
        } else {
            None::<u64>
        },
{
    physical_memory_offset.checked_add(phys)
}

/// Makes sure `tables` has an entry for `key`, taking a frame from
/// `allocator` for a new table; false when no frame was left.
fn ensure_table(
    tables: &mut BTreeMap<u64, u64>,
    key: u64,
    allocator: &mut KernelFrameAllocator,
) -> (ok: bool)
    requires
        old(allocator).wf(),
    ensures
        final(allocator).wf(),
        final(allocator).regions() == old(allocator).regions(),
        old(tables)@.contains_key(key) ==> {
            &&& ok
            &&& final(tables)@ == old(tables)@
            &&& final(allocator).next() == old(allocator).next()
        },
        !old(tables)@.contains_key(key) && old(allocator).remaining() > 0 ==> {
            &&& ok
            &&& final(tables)@ == old(tables)@.insert(
                key,
                old(allocator).frames()[old(allocator).next() as int],
            )
            &&& final(allocator).next() == old(allocator).next() + 1
        },
        !old(tables)@.contains_key(key) && old(allocator).remaining() == 0 ==> {
            &&& !ok
            &&& final(tables)@ == old(tables)@
            &&& final(allocator).next() == old(allocator).next()
        },
{
    if tables.contains_key(&key) {
        return true;
    }
    match allocator.allocate_frame() {
        Some(frame) => {
            tables.insert(key, frame);
            true
        },
        None => false,
    }
}

impl OffsetPageTable {
    /// Keys of the tables present at `level` (3, 2 or 1).
    pub closed spec fn tables(&self, level: int) -> Set<u64> {
        if level == 3 {
            self.level_3_tables@.dom()
        } else if level == 2 {
            self.level_2_tables@.dom()
        } else {
            self.level_1_tables@.dom()
        }
    }

    /// Physical frames of the tables present at `level` (3, 2 or 1), by key.
    pub closed spec fn table_frames(&self, level: int) -> Map<u64, u64> {
        if level == 3 {
            self.level_3_tables@
        } else if level == 2 {
            self.level_2_tables@
        } else {
            self.level_1_tables@
        }
    }

    /// Leaf entries, by page number.
    pub closed spec fn mappings(&self) -> Map<u64, Mapping> {
        self.pages@
    }

    pub closed spec fn physical_memory_offset(&self) -> u64 {
        self.physical_memory_offset
    }

    pub closed spec fn level_4_frame(&self) -> u64 {
        self.level_4_frame
    }

    /// Every table and leaf entry hangs below a table of the level above.
    pub closed spec fn wf(&self) -> bool {
        &&& forall|k: u64| #[trigger]
            self.level_2_tables@.contains_key(k) ==> self.level_3_tables@.contains_key(
                k / 512,
            )
        &&& forall|k: u64| #[trigger]
            self.level_1_tables@.contains_key(k) ==> self.level_2_tables@.contains_key(
                k / 512,
            )
        &&& forall|p: u64| #[trigger]
            self.pages@.contains_key(p) ==> self.level_1_tables@.contains_key(p / 512)
    }

    /// How many intermediate tables mapping `page` has to create.
    pub open spec fn tables_missing(&self, page: u64) -> nat {
        absent(self.tables(3), level_3_key(page)) + absent(self.tables(2), level_2_key(page))
            + absent(self.tables(1), level_1_key(page))
    }

    /// Offset at which all of physical memory is mapped.
    pub fn offset(&self) -> (res: u64)
        ensures
            res == self.physical_memory_offset(),
    {
        self.physical_memory_offset
    }

    /// Virtual address of the root table.
    pub fn level_4_table_address(&self) -> (res: Option<u64>)
        ensures
            res == if self.physical_memory_offset() + self.level_4_frame() <= u64::MAX {
                Some((self.physical_memory_offset() + self.level_4_frame()) as u64)
            } else {
                None::<u64>
            },
    {
        phys_to_virt(self.physical_memory_offset, self.level_4_frame)
    }

    /// Records a table that the active hierarchy already holds at `frame`, so
    /// that mapping reuses it instead of creating one. A table already known
    /// under that key stays as it is.
    pub fn adopt_table(&mut self, level: u8, key: u64, frame: u64)
        requires
            old(self).wf(),
            1 <= level <= 3,
            level < 3 ==> old(self).tables(level + 1).contains(key / 512),
        ensures
            final(self).wf(),
            final(self).physical_memory_offset() == old(self).physical_memory_offset(),
            final(self).level_4_frame() == old(self).level_4_frame(),
            final(self).mappings() == old(self).mappings(),
            forall|l: int| 1 <= l <= 3 && l != level
                ==> final(self).table_frames(l) == old(self).table_frames(l),
            old(self).tables(level as int).contains(key)
                ==> final(self).table_frames(level as int) == old(self).table_frames(level as int),
            !old(self).tables(level as int).contains(key)
                ==> final(self).table_frames(level as int)
                == old(self).table_frames(level as int).insert(key, frame),
    {
        if level == 3 {
            if !self.level_3_tables.contains_key(&key) {
                self.level_3_tables.insert(key, frame);
            }
        } else if level == 2 {
            if !self.level_2_tables.contains_key(&key) {
                self.level_2_tables.insert(key, frame);
            }
        } else {
            if !self.level_1_tables.contains_key(&key) {
                self.level_1_tables.insert(key, frame);
            }
        }
    }

    /// The frame of the table with key `key` at `level` (3, 2 or 1), if
    /// that table is present.
    pub fn table_frame(&self, level: u8, key: u64) -> (res: Option<u64>)
        requires
            1 <= level <= 3,
        ensures
            res == if self.table_frames(level as int).contains_key(key) {
                Some(self.table_frames(level as int)[key])
            } else {
                None::<u64>
            },
            self.tables(level as int) == self.table_frames(level as int).dom(),
    {
        let tables = if level == 3 {
            &self.level_3_tables
        } else if level == 2 {
            &self.level_2_tables
        } else {
            &self.level_1_tables
        };
        match tables.get(&key) {
            Some(f) => Some(*f),
            None => None,
        }
    }

    /// The leaf entry of `page`, if it is mapped.
    pub fn translate(&self, page: u64) -> (res: Option<Mapping>)
        ensures
            res == if self.mappings().contains_key(page) {
                Some(self.mappings()[page])
            } else {
                None::<Mapping>
            },
    {
        match self.pages.get(&page) {
            Some(m) => Some(*m),
            None => None,
        }
    }

    /// Maps `page` to `frame` with `flags`, creating the missing intermediate
    /// tables from frames of `allocator` on the way down.
    pub fn map_to(
        &mut self,
        page: u64,
        frame: u64,
        flags: u64,
        allocator: &mut KernelFrameAllocator,
    ) -> (res: Result<(), MapToError>)
        requires
            old(self).wf(),
            old(allocator).wf(),
            page < PAGE_COUNT,
        ensures
            final(self).wf(),
            final(allocator).wf(),
            final(allocator).regions() == old(allocator).regions(),
            final(self).physical_memory_offset() == old(self).physical_memory_offset(),
            final(self).level_4_frame() == old(self).level_4_frame(),
            old(allocator).remaining() < old(self).tables_missing(page) ==> {
                &&& res == Err::<(), MapToError>(MapToError::FrameAllocationFailed)
                &&& final(allocator).next() == old(allocator).frames().len()
                &&& final(self).mappings() == old(self).mappings()
            },
            old(allocator).remaining() >= old(self).tables_missing(page) ==> {
                &&& final(allocator).next() == old(allocator).next() + old(self).tables_missing(page)
                &&& final(self).tables(3) == old(self).tables(3).insert(level_3_key(page))
                &&& final(self).tables(2) == old(self).tables(2).insert(level_2_key(page))
                &&& final(self).tables(1) == old(self).tables(1).insert(level_1_key(page))
                &&& if old(self).mappings().contains_key(page) {
                    &&& res == Err::<(), MapToError>(
                        MapToError::PageAlreadyMapped(old(self).mappings()[page].frame),
                    )
                    &&& final(self).mappings() == old(self).mappings()
                } else {
                    &&& res == Ok::<(), MapToError>(())
                    &&& final(self).mappings() == old(self).mappings().insert(
                        page,
                        Mapping { frame, flags },
                    )
                }
            },
    {
        proof {
            allocator.lemma_next_in_bounds();
        }
        let k3 = page / LEVEL_3_SPAN;
        let k2 = page / LEVEL_2_SPAN;
        let k1 = page / LEVEL_1_SPAN;
        assert(k2 / 512 == k3 && k1 / 512 == k2);
        if !ensure_table(&mut self.level_3_tables, k3, allocator) {
            return Err(MapToError::FrameAllocationFailed);
        }
        if !ensure_table(&mut self.level_2_tables, k2, allocator) {
            proof {
                allocator.lemma_next_in_bounds();
            }
            return Err(MapToError::FrameAllocationFailed);
        }
        if !ensure_table(&mut self.level_1_tables, k1, allocator) {
            proof {
                allocator.lemma_next_in_bounds();
            }
            return Err(MapToError::FrameAllocationFailed);
        }
        proof {
            assert(self.level_3_tables@.dom() =~= old(self).tables(3).insert(k3));
            assert(self.level_2_tables@.dom() =~= old(self).tables(2).insert(k2));
            assert(self.level_1_tables@.dom() =~= old(self).tables(1).insert(k1));
        }
        match self.pages.get(&page) {
            Some(m) => {
                return Err(MapToError::PageAlreadyMapped(m.frame));
            },
            None => {},
        }
        self.pages.insert(page, Mapping { frame, flags });
        Ok(())
    }
}

} // verus!
