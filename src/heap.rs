//! Heap bootstrap: maps every page of the fixed heap window to a frame of its
//! own before the general-purpose allocator may use it.
use vstd::prelude::*;

use crate::frame::{
    lemma_frames_distinct_aligned, lemma_frames_in_usable_regions, regions_ordered,
    KernelFrameAllocator, MemoryRegion, FRAME_SIZE,
};
use crate::paging::{
    absent, level_1_key, level_2_key, level_3_key, MapToError, Mapping, OffsetPageTable,
    LEVEL_1_SPAN, LEVEL_2_SPAN, LEVEL_3_SPAN, PAGE_COUNT, PRESENT, WRITABLE,
};

verus! {

/// First virtual address of the heap window.
pub const HEAP_START: u64 = 0x4444_4444_0000;

/// Size in bytes of the heap window.
pub const HEAP_SIZE: u64 = 100 * 1024;

/// First page of the heap window.
pub const HEAP_FIRST_PAGE: u64 = HEAP_START / FRAME_SIZE;

/// Last page of the heap window, which holds its last byte.
pub const HEAP_LAST_PAGE: u64 = (HEAP_START + HEAP_SIZE - 1) / FRAME_SIZE;

/// Number of keys in `lo..=hi` that name no table in `tables`.
pub open spec fn count_absent(tables: Set<u64>, lo: int, hi: int) -> nat
    decreases hi - lo + 1,
{
    if hi < lo {
        0
    } else {
        count_absent(tables, lo, hi - 1) + absent(tables, hi as u64)
    }
}

/// Frames needed to map the pages `first..=last` over the tables present in
/// `pt`: one for each page and one for each missing table of each level.
pub open spec fn frames_needed(pt: OffsetPageTable, first: u64, last: u64) -> nat {
    (last - first + 1) as nat + count_absent(
        pt.tables(3),
        first as int / LEVEL_3_SPAN as int,
        last as int / LEVEL_3_SPAN as int,
    ) + count_absent(pt.tables(2), first as int / LEVEL_2_SPAN as int, last as int / LEVEL_2_SPAN as int)
        + count_absent(pt.tables(1), first as int / LEVEL_1_SPAN as int, last as int / LEVEL_1_SPAN as int)
}

/// `m` points to one of the frames `frames[lo..hi]`: one handed out between
/// those two cursor positions.
pub open spec fn issued_between(frames: Seq<u64>, lo: int, hi: int, m: Mapping) -> bool {
    exists|i: int| lo <= i < hi && 0 <= i < frames.len() && #[trigger] frames[i] == m.frame
}

/// The frame at `frame` lies whole inside a usable region of `regions`.
pub open spec fn in_usable_region(regions: Seq<MemoryRegion>, frame: u64) -> bool {
    exists|i: int|
        0 <= i < regions.len() && (#[trigger] regions[i]).kind is Usable && regions[i].start <= frame
            && frame + FRAME_SIZE <= regions[i].end
}

/// Keys of the tables of span `d` that translate some page of `first..page`.
spec fn spanned(first: u64, page: int, d: int) -> Set<u64> {
    Set::new(|x: u64| page > first && first as int / d <= x <= (page - 1) / d)
}

/// Tables of span `d` missing from `tables` among those of `first..page`.
spec fn spanned_absent(tables: Set<u64>, first: u64, page: int, d: int) -> nat {
    if page > first {
        count_absent(tables, first as int / d, (page - 1) / d)
    } else {
        0
    }
}

proof fn lemma_count_absent_monotone(tables: Set<u64>, lo: int, h1: int, h2: int)
    requires
        h1 <= h2,
    ensures
        count_absent(tables, lo, h1) <= count_absent(tables, lo, h2),
    decreases h2 - h1,
{
    if h1 < h2 {
        lemma_count_absent_monotone(tables, lo, h1, h2 - 1);
    }
}

/// Taking one more page adds its table key to the span, and counts it where
/// it is new.
proof fn lemma_span_step(tables: Set<u64>, first: u64, page: u64, d: int)
    requires
        first <= page,
        d > 0,
    ensures
        spanned(first, page + 1, d) =~= spanned(first, page as int, d).insert((page as int / d) as u64),
        spanned(first, page as int, d).contains((page as int / d) as u64) || !tables.union(
            spanned(first, page as int, d),
        ).contains((page as int / d) as u64) == !tables.contains((page as int / d) as u64),
        spanned_absent(tables, first, page + 1, d) == spanned_absent(tables, first, page as int, d)
            + absent(tables.union(spanned(first, page as int, d)), (page as int / d) as u64),
        (page as int / d) as u64 == page as int / d,
{
    let q = page as int / d;
    assert(first as int / d <= q) by (nonlinear_arith)
        requires
            first <= page,
            d > 0,
            q == page as int / d,
    ;
    assert(0 <= q <= page) by (nonlinear_arith)
        requires
            d > 0,
            q == page as int / d,
    ;
    if page > first {
        let r = (page - 1) / d;
        assert(r <= q <= r + 1) by (nonlinear_arith)
            requires
                d > 0,
                q == page as int / d,
                r == (page - 1) / d,
                page >= 1,
        ;
        assert(first as int / d <= r) by (nonlinear_arith)
            requires
                first <= page - 1,
                d > 0,
                r == (page - 1) / d,
        ;
    }
    assert(spanned(first, page + 1, d) =~= spanned(first, page as int, d).insert(q as u64));
    let u = tables.union(spanned(first, page as int, d));
    assert(count_absent(tables, first as int / d, q) == count_absent(tables, first as int / d, q - 1)
        + absent(tables, q as u64));
    if page == first {
        assert(spanned(first, page as int, d) =~= Set::empty());
        assert(u =~= tables);
        assert(count_absent(tables, q, q - 1) == 0);
    } else {
        let r = (page - 1) / d;
        if q == r {
            assert(spanned(first, page as int, d).contains(q as u64));
        } else {
            assert(!spanned(first, page as int, d).contains(q as u64));
            assert(u.contains(q as u64) == tables.contains(q as u64));
        }
    }
}

/// Maps each page of `first..=last` to a fresh frame of `allocator` with
/// `flags`, stopping at the first failure.
///
/// Where none of the pages is mapped yet, this succeeds exactly when the
/// allocator can supply a frame for every page and every missing table, and
/// otherwise reports that frames ran out.
pub fn map_range(
    pt: &mut OffsetPageTable,
    first: u64,
    last: u64,
    flags: u64,
    allocator: &mut KernelFrameAllocator,
) -> (res: Result<(), MapToError>)
    requires
        old(pt).wf(),
        old(allocator).wf(),
        first <= last < PAGE_COUNT,
    ensures
        final(pt).wf(),
        final(allocator).wf(),
        final(allocator).regions() == old(allocator).regions(),
        final(pt).physical_memory_offset() == old(pt).physical_memory_offset(),
        final(pt).level_4_frame() == old(pt).level_4_frame(),
        (forall|p: u64| first <= p <= last ==> !old(pt).mappings().contains_key(p)) ==> {
            &&& res is Ok <==> old(allocator).remaining() >= frames_needed(*old(pt), first, last)
            &&& res is Err ==> res == Err::<(), MapToError>(MapToError::FrameAllocationFailed)
        },
        res is Ok ==> {
            &&& final(allocator).next() == old(allocator).next() + frames_needed(*old(pt), first, last)
            &&& forall|p: u64| first <= p <= last ==> {
                &&& #[trigger] final(pt).mappings().contains_key(p)
                &&& final(pt).mappings()[p].flags == flags
            }
            &&& forall|p: u64| first <= p <= last ==> issued_between(
                old(allocator).frames(),
                old(allocator).next() as int,
                final(allocator).next() as int,
                #[trigger] final(pt).mappings()[p],
            )
            &&& regions_ordered(old(allocator).regions()) ==> forall|p: u64, q: u64|
                first <= p < q <= last ==> #[trigger] final(pt).mappings()[p].frame
                    < #[trigger] final(pt).mappings()[q].frame
            &&& regions_ordered(old(allocator).regions()) ==> forall|p: u64|
                first <= p <= last ==> #[trigger] final(pt).mappings()[p].frame % FRAME_SIZE == 0
        },
        forall|p: u64|
            !(first <= p <= last) ==> (#[trigger] final(pt).mappings().contains_key(p)
                == old(pt).mappings().contains_key(p) && (old(pt).mappings().contains_key(p)
                ==> final(pt).mappings()[p] == old(pt).mappings()[p])),
{
    let ghost t3 = old(pt).tables(3);
    let ghost t2 = old(pt).tables(2);
    let ghost t1 = old(pt).tables(1);
    let ghost m0 = old(pt).mappings();
    let ghost n0 = old(allocator).next();
    let ghost total = old(allocator).frames().len();
    let ghost d3 = LEVEL_3_SPAN as int;
    let ghost d2 = LEVEL_2_SPAN as int;
    let ghost d1 = LEVEL_1_SPAN as int;
    proof {
        allocator.lemma_next_in_bounds();
        assert(spanned(first, first as int, d3) =~= Set::empty());
        assert(spanned(first, first as int, d2) =~= Set::empty());
        assert(spanned(first, first as int, d1) =~= Set::empty());
        assert(t3.union(Set::empty()) =~= t3);
        assert(t2.union(Set::empty()) =~= t2);
        assert(t1.union(Set::empty()) =~= t1);
    }
    let ghost mut issued: Map<u64, int> = Map::empty();
    let mut page = first;
    while page <= last
        invariant
            forall|p: u64| first <= p < page ==> {
                &&& #[trigger] issued.contains_key(p)
                &&& n0 <= issued[p] < allocator.next()
                &&& pt.mappings()[p].frame == allocator.frames()[issued[p]]
            },
            forall|p: u64, q: u64|
                first <= p < q < page ==> #[trigger] issued[p] < #[trigger] issued[q],
            first <= page <= last + 1,
            last < PAGE_COUNT,
            pt.wf(),
            allocator.wf(),
            allocator.regions() == old(allocator).regions(),
            pt.physical_memory_offset() == old(pt).physical_memory_offset(),
            pt.level_4_frame() == old(pt).level_4_frame(),
            t3 == old(pt).tables(3),
            t2 == old(pt).tables(2),
            t1 == old(pt).tables(1),
            m0 == old(pt).mappings(),
            n0 == old(allocator).next(),
            total == old(allocator).frames().len(),
            total == allocator.frames().len(),
            n0 <= total,
            d3 == LEVEL_3_SPAN,
            d2 == LEVEL_2_SPAN,
            d1 == LEVEL_1_SPAN,
            pt.tables(3) == t3.union(spanned(first, page as int, d3)),
            pt.tables(2) == t2.union(spanned(first, page as int, d2)),
            pt.tables(1) == t1.union(spanned(first, page as int, d1)),
            allocator.next() == n0 + (page - first) + spanned_absent(t3, first, page as int, d3)
                + spanned_absent(t2, first, page as int, d2) + spanned_absent(
                t1,
                first,
                page as int,
                d1,
            ),
            forall|p: u64|
                first <= p < page ==> #[trigger] pt.mappings().contains_key(p)
                    && pt.mappings()[p].flags == flags,
            forall|p: u64|
                !(first <= p < page) ==> (#[trigger] pt.mappings().contains_key(p)
                    == m0.contains_key(p) && (m0.contains_key(p) ==> pt.mappings()[p] == m0[p])),
        decreases last + 1 - page,
    {
        proof {
            allocator.lemma_next_in_bounds();
            lemma_span_step(t3, first, page, d3);
            lemma_span_step(t2, first, page, d2);
            lemma_span_step(t1, first, page, d1);
            lemma_count_absent_monotone(t3, first as int / d3, page as int / d3, last as int / d3);
            lemma_count_absent_monotone(t2, first as int / d2, page as int / d2, last as int / d2);
            lemma_count_absent_monotone(t1, first as int / d1, page as int / d1, last as int / d1);
            assert(page as int / d3 <= last as int / d3 && page as int / d2 <= last as int / d2
                && page as int / d1 <= last as int / d1)
                by (nonlinear_arith)
                requires
                    page <= last,
                    d3 > 0,
                    d2 > 0,
                    d1 > 0,
            ;
            assert(level_3_key(page) == page as int / d3);
            assert(level_2_key(page) == page as int / d2);
            assert(level_1_key(page) == page as int / d1);
        }
        let ghost cursor = allocator.next() as int;
        let frame = match allocator.allocate_frame() {
            Some(f) => f,
            None => {
                return Err(MapToError::FrameAllocationFailed);
            },
        };
        let ghost before = pt.mappings();
        match pt.map_to(page, frame, flags, allocator) {
            Ok(()) => {
                assert forall|p: u64| first <= p < page + 1 implies #[trigger] pt.mappings().contains_key(p)
                    && pt.mappings()[p].flags == flags by {
                    if p < page {
                        assert(before.contains_key(p));
                    }
                }
                proof {
                    let prior = issued;
                    issued = issued.insert(page, cursor);
                    assert(allocator.frames() == old(allocator).frames());
                    assert forall|p: u64| first <= p < page + 1 implies {
                        &&& #[trigger] issued.contains_key(p)
                        &&& n0 <= issued[p] < allocator.next()
                        &&& pt.mappings()[p].frame == allocator.frames()[issued[p]]
                    } by {
                        if p < page {
                            assert(prior.contains_key(p));
                            assert(before.contains_key(p));
                        }
                    }
                    assert forall|p: u64, q: u64|
                        first <= p < q < page + 1 implies #[trigger] issued[p] < #[trigger] issued[q] by {
                        assert(prior.contains_key(p));
                        if q < page {
                            assert(prior.contains_key(q));
                        }
                    }
                }
            },
            Err(e) => {
                return Err(e);
            },
        }
        page = page + 1;
    }
    proof {
        allocator.lemma_next_in_bounds();
        assert(allocator.frames() == old(allocator).frames());
        assert forall|p: u64| first <= p <= last implies issued_between(
            old(allocator).frames(),
            old(allocator).next() as int,
            allocator.next() as int,
            #[trigger] pt.mappings()[p],
        ) by {
            assert(issued.contains_key(p));
            let i = issued[p];
            assert(pt.mappings()[p].frame == old(allocator).frames()[i]);
        }
        if regions_ordered(old(allocator).regions()) {
            lemma_frames_distinct_aligned(allocator.regions());
            assert forall|p: u64, q: u64|
                first <= p < q <= last implies #[trigger] pt.mappings()[p].frame
                < #[trigger] pt.mappings()[q].frame by {
                assert(issued.contains_key(p) && issued.contains_key(q));
                assert(issued[p] < issued[q]);
            }
            assert forall|p: u64| first <= p <= last implies #[trigger] pt.mappings()[p].frame
                % FRAME_SIZE == 0 by {
                assert(issued.contains_key(p));
            }
        }
    }
    Ok(())
}

/// Maps the whole heap window, present and writable, to frames of
/// `frame_allocator`. On success every page of the window has a frame of its
/// own, and the window can be handed to the heap allocator.
pub fn init_heap(mapper: &mut OffsetPageTable, frame_allocator: &mut KernelFrameAllocator) -> (res:
    Result<(), MapToError>)
    requires
        old(mapper).wf(),
        old(frame_allocator).wf(),
    ensures
        final(mapper).wf(),
        final(frame_allocator).wf(),
        final(frame_allocator).regions() == old(frame_allocator).regions(),
        (forall|p: u64|
            HEAP_FIRST_PAGE <= p <= HEAP_LAST_PAGE ==> !old(mapper).mappings().contains_key(p))
            ==> {
            &&& res is Ok <==> old(frame_allocator).remaining() >= frames_needed(
                *old(mapper),
                HEAP_FIRST_PAGE,
                HEAP_LAST_PAGE,
            )
            &&& res is Err ==> res == Err::<(), MapToError>(MapToError::FrameAllocationFailed)
        },
        res is Ok ==> forall|p: u64| HEAP_FIRST_PAGE <= p <= HEAP_LAST_PAGE ==> {
            &&& #[trigger] final(mapper).mappings().contains_key(p)
            &&& final(mapper).mappings()[p].flags == PRESENT | WRITABLE
        },
        res is Ok ==> forall|p: u64| HEAP_FIRST_PAGE <= p <= HEAP_LAST_PAGE ==> issued_between(
            old(frame_allocator).frames(),
            old(frame_allocator).next() as int,
            final(frame_allocator).next() as int,
            #[trigger] final(mapper).mappings()[p],
        ),
        res is Ok ==> forall|p: u64| HEAP_FIRST_PAGE <= p <= HEAP_LAST_PAGE ==> in_usable_region(
            old(frame_allocator).regions(),
            #[trigger] final(mapper).mappings()[p].frame,
        ),
        res is Ok && regions_ordered(old(frame_allocator).regions()) ==> forall|p: u64, q: u64|
            HEAP_FIRST_PAGE <= p < q <= HEAP_LAST_PAGE ==> #[trigger] final(mapper).mappings()[p].frame
                != #[trigger] final(mapper).mappings()[q].frame,
        forall|p: u64|
            !(HEAP_FIRST_PAGE <= p <= HEAP_LAST_PAGE) ==> (#[trigger] final(mapper).mappings().contains_key(p)
                == old(mapper).mappings().contains_key(p)),
{
    let res = map_range(mapper, HEAP_FIRST_PAGE, HEAP_LAST_PAGE, PRESENT | WRITABLE, frame_allocator);
    proof {
        if res is Ok {
            assert forall|p: u64| HEAP_FIRST_PAGE <= p <= HEAP_LAST_PAGE implies in_usable_region(
                old(frame_allocator).regions(),
                #[trigger] mapper.mappings()[p].frame,
            ) by {
                assert(issued_between(
                    old(frame_allocator).frames(),
                    old(frame_allocator).next() as int,
                    frame_allocator.next() as int,
                    mapper.mappings()[p],
                ));
                let i = choose|i: int|
                    old(frame_allocator).next() <= i < frame_allocator.next() && 0 <= i
                        < old(frame_allocator).frames().len() && #[trigger] old(
                        frame_allocator,
                    ).frames()[i] == mapper.mappings()[p].frame;
                lemma_frames_in_usable_regions(old(frame_allocator).regions(), i);
            }
        }
    }
    res
}

} // verus!
