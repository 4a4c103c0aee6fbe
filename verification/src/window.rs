//! Scan window: the cursor state for one segment's chunked traversal.
//!
//! A window walks a segment from its start address to its end address,
//! requesting at most `CHUNK_SIZE` bytes per read and advancing by the
//! number of bytes actually transferred, which may be fewer.

use vstd::prelude::*;
use crate::parser::MapSegment;

verus! {

/// Bytes requested per read: the bound of one chunk.
pub const CHUNK_SIZE: usize = 4096;

/// The mutable cursor state for one segment's traversal.
#[derive(Clone, Copy, Debug, PartialEq, Eq, Structural)]
pub struct ScanWindow {
    /// Current absolute address: the next byte to read.
    pub base: u64,
    /// First address past the segment.
    pub end_addr: u64,
}

impl ScanWindow {
    /// The cursor has not run past the segment's end.
    pub open spec fn wf(self) -> bool {
        self.base <= self.end_addr
    }

    /// Bytes left to read in this segment.
    pub open spec fn remaining(self) -> int {
        self.end_addr - self.base
    }

    /// A fresh window standing at the segment's start.
    pub fn new(seg: &MapSegment) -> (w: ScanWindow)
        requires
            seg.start_addr <= seg.end_addr,
        ensures
            w.base == seg.start_addr,
            w.end_addr == seg.end_addr,
            w.wf(),
    {
        ScanWindow { base: seg.start_addr, end_addr: seg.end_addr }
    }

    /// Length of the next read request: what is left, bounded by the
    /// chunk size.
    pub fn request_len(&self) -> (n: usize)
        requires
            self.wf(),
        ensures
            n == if self.remaining() <= CHUNK_SIZE { self.remaining() } else { CHUNK_SIZE as int },
            n <= CHUNK_SIZE,
            n <= self.remaining(),
            self.remaining() > 0 ==> n > 0,
    {
        let left = self.end_addr - self.base;
        if left < CHUNK_SIZE as u64 {
            left as usize
        } else {
            CHUNK_SIZE
        }
    }

    /// Moves the cursor past `n` transferred bytes.
    pub fn advance(&mut self, n: usize)
        requires
            old(self).wf(),
            n <= old(self).remaining(),
        ensures
            final(self).base == old(self).base + n,
            final(self).end_addr == old(self).end_addr,
            final(self).wf(),
            final(self).remaining() == old(self).remaining() - n,
    {
        self.base = self.base + n as u64;
    }
}

/// The window after one transfer of `n` bytes.
pub open spec fn window_after(w: ScanWindow, n: int) -> ScanWindow {
    ScanWindow { base: (w.base + n) as u64, end_addr: w.end_addr }
}

/// The window after a run of transfers, applied in order.
pub open spec fn window_run(w: ScanWindow, ns: Seq<int>) -> ScanWindow
    decreases ns.len(),
{
    if ns.len() == 0 {
        w
    } else {
        window_after(window_run(w, ns.drop_last()), ns.last())
    }
}

/// Every transfer of the run moves at least one byte and at most what
/// was left before it.
pub open spec fn valid_run(w: ScanWindow, ns: Seq<int>) -> bool {
    forall|i: int|
        0 <= i < ns.len() ==> 1 <= #[trigger] ns[i] && ns[i] <= window_run(
            w,
            ns.subrange(0, i),
        ).remaining()
}

/// Sum of a run's transfer lengths.
pub open spec fn run_total(ns: Seq<int>) -> int
    decreases ns.len(),
{
    if ns.len() == 0 {
        0
    } else {
        run_total(ns.drop_last()) + ns.last()
    }
}

/// A prefix of a valid run is a valid run.
proof fn lemma_valid_run_prefix(w: ScanWindow, ns: Seq<int>, k: int)
    requires
        valid_run(w, ns),
        0 <= k <= ns.len(),
    ensures
        valid_run(w, ns.subrange(0, k)),
{
    let p = ns.subrange(0, k);
    assert forall|i: int| 0 <= i < p.len() implies 1 <= #[trigger] p[i] && p[i] <= window_run(
        w,
        p.subrange(0, i),
    ).remaining() by {
        assert(p[i] == ns[i]);
        assert(p.subrange(0, i) =~= ns.subrange(0, i));
    }
}

/// How a segment's traversal reads it: over any valid run of transfers
/// the cursor moves forward by exactly the bytes transferred, never past
/// the segment's end; each step strictly increases the base address; and
/// a run that exhausts the segment has transferred exactly its length.
pub proof fn lemma_reading_progress(w: ScanWindow, ns: Seq<int>)
    requires
        w.wf(),
        valid_run(w, ns),
    ensures
        window_run(w, ns).wf(),
        window_run(w, ns).end_addr == w.end_addr,
        window_run(w, ns).base == w.base + run_total(ns),
        forall|i: int|
            0 <= i < ns.len() ==> #[trigger] window_run(w, ns.subrange(0, i)).base < window_run(
                w,
                ns.subrange(0, i + 1),
            ).base,
        window_run(w, ns).remaining() == 0 ==> run_total(ns) == w.remaining(),
    decreases ns.len(),
{
    if ns.len() == 0 {
        assert(ns.subrange(0, 0) =~= ns);
    } else {
        let k = ns.len() - 1;
        let p = ns.drop_last();
        lemma_valid_run_prefix(w, ns, k);
        assert(p =~= ns.subrange(0, k));
        lemma_reading_progress(w, p);
        let before = window_run(w, p);
        assert(ns[k] == ns.last());
        assert(1 <= ns.last() && ns.last() <= before.remaining());
        assert(window_run(w, ns) == window_after(before, ns.last()));
        assert(ns.subrange(0, ns.len() as int) =~= ns);
        assert forall|i: int|
            0 <= i < ns.len() implies #[trigger] window_run(w, ns.subrange(0, i)).base
            < window_run(w, ns.subrange(0, i + 1)).base by {
            if i < k {
                assert(ns.subrange(0, i) =~= p.subrange(0, i));
                assert(ns.subrange(0, i + 1) =~= p.subrange(0, i + 1));
            } else {
                assert(ns.subrange(0, i) =~= p);
                assert(ns.subrange(0, i + 1) =~= ns);
            }
        }
    }
}

} // verus!
