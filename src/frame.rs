//! Physical frame allocator: a monotonic cursor over the 4 KiB frames of the
//! usable regions of the bootloader's memory map.
use vstd::prelude::*;

verus! {

/// Size in bytes of a physical frame (and of a virtual page).
pub const FRAME_SIZE: u64 = 4096;

/// What the bootloader reports a physical memory region to be used for.
#[derive(Clone, Copy, Debug, PartialEq, Eq, Structural)]
pub enum MemoryRegionKind {
    /// Free memory that the kernel may hand out.
    Usable,
    /// Memory that holds the bootloader, the kernel image or boot data.
    Bootloader,
    /// A region that UEFI firmware reported with the given type code.
    UnknownUefi(u32),
    /// A region that the BIOS reported with the given type code.
    UnknownBios(u32),
}

/// A half-open range `[start, end)` of physical memory and its kind.
#[derive(Clone, Copy, Debug, PartialEq, Eq, Structural)]
pub struct MemoryRegion {
    pub start: u64,
    pub end: u64,
    pub kind: MemoryRegionKind,
}

/// `a` rounded up to the next multiple of the frame size.
pub open spec fn align_up(a: int) -> int {
    ((a + FRAME_SIZE - 1) / (FRAME_SIZE as int)) * FRAME_SIZE
}

/// Start address of the first whole frame of `r`.
pub open spec fn first_frame(r: MemoryRegion) -> int {
    align_up(r.start as int)
}

/// Number of whole, aligned frames that a usable region holds; zero for any
/// other kind of region.
pub open spec fn frame_count(r: MemoryRegion) -> nat {
    if r.kind is Usable && first_frame(r) + FRAME_SIZE <= r.end {
        ((r.end - first_frame(r)) / (FRAME_SIZE as int)) as nat
    } else {
        0
    }
}

/// The start addresses of the frames of `r`, in increasing order.
pub open spec fn region_frames(r: MemoryRegion) -> Seq<u64> {
    Seq::new(frame_count(r), |k: int| (first_frame(r) + k * FRAME_SIZE) as u64)
}

/// The frames of all usable regions, region after region: the order in
/// which the allocator hands them out.
pub open spec fn usable_frames(regions: Seq<MemoryRegion>) -> Seq<u64>
    decreases regions.len(),
{
    if regions.len() == 0 {
        Seq::empty()
    } else {
        usable_frames(regions.drop_last()) + region_frames(regions.last())
    }
}

/// Regions that lie in increasing order and do not overlap, as a bootloader
/// reports them.
pub open spec fn regions_ordered(regions: Seq<MemoryRegion>) -> bool {
    &&& forall|i: int| 0 <= i < regions.len() ==> regions[i].start <= regions[i].end
    &&& forall|i: int, j: int|
        0 <= i < j < regions.len() ==> regions[i].end <= regions[j].start
}

/// The frames of the first `i` regions come first among all frames.
proof fn lemma_prefix_frames(regions: Seq<MemoryRegion>, i: int)
    requires
        0 <= i <= regions.len(),
    ensures
        usable_frames(regions.take(i)).len() <= usable_frames(regions).len(),
        usable_frames(regions.take(i)) =~= usable_frames(regions).take(
            usable_frames(regions.take(i)).len() as int,
        ),
    decreases regions.len(),
{
    if i == regions.len() {
        assert(regions.take(i) =~= regions);
    } else {
        let init = regions.drop_last();
        assert(init.take(i) =~= regions.take(i));
        lemma_prefix_frames(init, i);
    }
}

/// The frames of region `i` follow those of the regions before it.
proof fn lemma_frames_of_region(regions: Seq<MemoryRegion>, i: int, k: int)
    requires
        0 <= i < regions.len(),
        0 <= k < frame_count(regions[i]),
    ensures
        usable_frames(regions.take(i)).len() + k < usable_frames(regions).len(),
        usable_frames(regions)[usable_frames(regions.take(i)).len() + k] == region_frames(
            regions[i],
        )[k],
{
    let next = regions.take(i + 1);
    assert(next.drop_last() =~= regions.take(i));
    assert(next.last() == regions[i]);
    lemma_prefix_frames(regions, i + 1);
    let n = usable_frames(next).len() as int;
    assert(usable_frames(next)[usable_frames(regions.take(i)).len() + k] == usable_frames(
        regions,
    ).take(n)[usable_frames(regions.take(i)).len() + k]);
}

/// Every frame of a usable region lies inside it.
proof fn lemma_region_frames_inside(r: MemoryRegion, k: int)
    requires
        0 <= k < frame_count(r),
    ensures
        r.start <= region_frames(r)[k],
        region_frames(r)[k] + FRAME_SIZE <= r.end,
        region_frames(r)[k] % FRAME_SIZE == 0,
{
    let f = first_frame(r);
    let n = (r.end - f) / (FRAME_SIZE as int);
    assert(f % 4096 == 0 && f >= r.start) by (nonlinear_arith)
        requires
            f == ((r.start + 4095) / 4096) * 4096,
    ;
    assert(f + k * 4096 + 4096 <= r.end) by (nonlinear_arith)
        requires
            n == (r.end - f) / 4096,
            0 <= k < n,
            f + 4096 <= r.end,
    ;
    assert((f + k * 4096) % 4096 == 0) by (nonlinear_arith)
        requires
            f % 4096 == 0,
    ;
}

/// Over regions in increasing order that do not overlap, the frames that the
/// allocator hands out are aligned and strictly increasing, hence pairwise
/// distinct, and each one lies whole inside the last region's end.
pub proof fn lemma_frames_distinct_aligned(regions: Seq<MemoryRegion>)
    requires
        regions_ordered(regions),
    ensures
        forall|i: int|
            0 <= i < usable_frames(regions).len() ==> #[trigger] usable_frames(regions)[i]
                % FRAME_SIZE == 0,
        forall|i: int, j: int|
            0 <= i < j < usable_frames(regions).len() ==> #[trigger] usable_frames(regions)[i]
                < #[trigger] usable_frames(regions)[j],
        regions.len() > 0 ==> forall|i: int|
            0 <= i < usable_frames(regions).len() ==> #[trigger] usable_frames(regions)[i]
                + FRAME_SIZE <= regions.last().end,
    decreases regions.len(),
{
    if regions.len() > 0 {
        let init = regions.drop_last();
        let last = regions.last();
        lemma_frames_distinct_aligned(init);
        let a = usable_frames(init);
        let b = region_frames(last);
        assert(usable_frames(regions) =~= a + b);
        assert forall|k: int| 0 <= k < b.len() implies #[trigger] b[k] % FRAME_SIZE == 0 && last.start
            <= b[k] && b[k] + FRAME_SIZE <= last.end by {
            lemma_region_frames_inside(last, k);
        }
        if init.len() > 0 {
            assert(init.last() == regions[regions.len() - 2]);
            assert(init.last().end <= last.start);
        }
        assert(last.start <= last.end);
        assert forall|i: int, j: int|
            0 <= i < j < usable_frames(regions).len() implies #[trigger] usable_frames(regions)[i]
            < #[trigger] usable_frames(regions)[j] by {
            if j < a.len() {
            } else if i >= a.len() {
                assert(b[i - a.len()] == first_frame(last) + (i - a.len()) * 4096);
                assert(b[j - a.len()] == first_frame(last) + (j - a.len()) * 4096);
            } else {
                assert(a[i] + FRAME_SIZE <= init.last().end);
                lemma_region_frames_inside(last, j - a.len());
            }
        }
        assert forall|i: int| 0 <= i < usable_frames(regions).len() implies #[trigger] usable_frames(
            regions,
        )[i] + FRAME_SIZE <= regions.last().end by {
            if i < a.len() {
                assert(a[i] + FRAME_SIZE <= init.last().end);
            }
        }
    }
}

/// Every frame the allocator can hand out lies whole inside a usable region
/// of the map, at a frame-aligned address.
pub proof fn lemma_frames_in_usable_regions(regions: Seq<MemoryRegion>, n: int)
    requires
        0 <= n < usable_frames(regions).len(),
    ensures
        usable_frames(regions)[n] % FRAME_SIZE == 0,
        exists|i: int|
            0 <= i < regions.len() && (#[trigger] regions[i]).kind is Usable && regions[i].start
                <= usable_frames(regions)[n] && usable_frames(regions)[n] + FRAME_SIZE
                <= regions[i].end,
    decreases regions.len(),
{
    let init = regions.drop_last();
    let a = usable_frames(init);
    assert(usable_frames(regions) =~= a + region_frames(regions.last()));
    if n < a.len() {
        lemma_frames_in_usable_regions(init, n);
        let i = choose|i: int|
            0 <= i < init.len() && (#[trigger] init[i]).kind is Usable && init[i].start
                <= a[n] && a[n] + FRAME_SIZE <= init[i].end;
        assert(regions[i] == init[i]);
    } else {
        let k = n - a.len();
        lemma_region_frames_inside(regions.last(), k);
        assert(regions[regions.len() - 1] == regions.last());
    }
}

/// A frame allocator that returns the usable frames of the bootloader's
/// memory map one after the other and never takes a frame back.
pub struct KernelFrameAllocator {
    memory_regions: Vec<MemoryRegion>,
    /// Index of the region that the cursor stands in.
    region: usize,
    /// Number of frames of that region that were already handed out.
    offset: u64,
}

/// First frame address and frame count of a region, computed without overflow.
fn region_span(r: &MemoryRegion) -> (res: (u64, u64))
    ensures
        res.1 == frame_count(*r),
        res.1 > 0 ==> res.0 == first_frame(*r),
{
    let rem = r.start % FRAME_SIZE;
    let base = r.start - rem;
    if !matches!(r.kind, MemoryRegionKind::Usable) {
        return (0, 0);
    }
    proof {
        assert(first_frame(*r) == if rem == 0 { base as int } else { base + 4096 }) by (
        nonlinear_arith)
            requires
                rem == r.start % 4096,
                base == r.start - rem,
                first_frame(*r) == ((r.start + 4095) / 4096) * 4096,
        ;
    }
    let first = if rem == 0 {
        base
    } else if base <= u64::MAX - 2 * FRAME_SIZE {
        base + FRAME_SIZE
    } else {
        return (0, 0);
    };
    if first > u64::MAX - FRAME_SIZE || first + FRAME_SIZE > r.end {
        return (0, 0);
    }
    (first, (r.end - first) / FRAME_SIZE)
}

impl KernelFrameAllocator {
    /// The memory map that the allocator hands frames out of.
    pub closed spec fn regions(&self) -> Seq<MemoryRegion> {
        self.memory_regions@
    }

    /// How many frames were handed out so far.
    pub closed spec fn next(&self) -> nat {
        (usable_frames(self.memory_regions@.take(self.region as int)).len() + self.offset) as nat
    }

    /// All frames the allocator can ever hand out, in order.
    pub open spec fn frames(&self) -> Seq<u64> {
        usable_frames(self.regions())
    }

    /// How many frames are left.
    pub open spec fn remaining(&self) -> nat {
        (self.frames().len() - self.next()) as nat
    }

    pub closed spec fn wf(&self) -> bool {
        &&& self.region <= self.memory_regions@.len()
        &&& self.region < self.memory_regions@.len() ==> self.offset <= frame_count(
            self.memory_regions@[self.region as int],
        )
        &&& self.region == self.memory_regions@.len() ==> self.offset == 0
    }

    /// The cursor never passes the end of the frame sequence.
    pub proof fn lemma_next_in_bounds(&self)
        requires
            self.wf(),
        ensures
            self.next() <= self.frames().len(),
    {
        let rs = self.memory_regions@;
        let i = self.region as int;
        lemma_prefix_frames(rs, i);
        if i < rs.len() {
            let t = rs.take(i + 1);
            assert(t.drop_last() =~= rs.take(i));
            assert(t.last() == rs[i]);
            lemma_prefix_frames(rs, i + 1);
        }
    }

    /// Creates an allocator over `memory_regions` that has handed out nothing.
    pub fn new(memory_regions: Vec<MemoryRegion>) -> (res: Self)
        ensures
            res.wf(),
            res.regions() == memory_regions@,
            res.next() == 0,
    {
        proof {
            assert(memory_regions@.take(0) =~= Seq::<MemoryRegion>::empty());
        }
        KernelFrameAllocator { memory_regions, region: 0, offset: 0 }
    }

    /// Hands out the frame at the cursor and advances the cursor; `None` once
    /// every usable frame has been handed out.
    pub fn allocate_frame(&mut self) -> (res: Option<u64>)
        requires
            old(self).wf(),
        ensures
            final(self).wf(),
            final(self).regions() == old(self).regions(),
            old(self).next() <= old(self).frames().len(),
            res == if old(self).next() < old(self).frames().len() {
                Some(old(self).frames()[old(self).next() as int])
            } else {
                None::<u64>
            },
            final(self).next() == if res.is_some() {
                old(self).next() + 1
            } else {
                old(self).next()
            },
    {
        proof {
            self.lemma_next_in_bounds();
        }
        let ghost rs = self.memory_regions@;
        let ghost start = self.next();
        let n = self.memory_regions.len();
        while self.region < n
            invariant
                self.wf(),
                self.memory_regions@ == rs,
                rs == old(self).regions(),
                start == old(self).next(),
                n == rs.len(),
                self.next() == start,
                start <= usable_frames(rs).len(),
            decreases n - self.region,
        {
            let (first, count) = region_span(&self.memory_regions[self.region]);
            if self.offset < count {
                let k = self.offset;
                proof {
                    lemma_frames_of_region(rs, self.region as int, k as int);
                    lemma_region_frames_inside(rs[self.region as int], k as int);
                }
                self.offset = k + 1;
                return Some(first + k * FRAME_SIZE);
            }
            proof {
                let i = self.region as int;
                let t = rs.take(i + 1);
                assert(t.drop_last() =~= rs.take(i));
                assert(t.last() == rs[i]);
            }
            self.region = self.region + 1;
            self.offset = 0;
        }
        proof {
            assert(rs.take(n as int) =~= rs);
        }
        None
    }

    /// Takes a frame back. Frames are never reused in this design, so
    /// nothing is recorded.
    pub fn deallocate_frame(&mut self, _frame: u64)
        ensures
            *final(self) == *old(self),
    {
    }
}

} // verus!
