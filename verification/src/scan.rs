//! Scan orchestrator: drives the loop over segments and over successive
//! windows within a segment.
//!
//! The one privileged primitive — a single vectored cross-process memory
//! read per chunk — stands behind a trusted wrapper; the surrounding
//! loop, the error classification and the matching are verified.  A
//! remote read observes another process and so may return different
//! bytes on every call; the in-memory variant at the end of this module
//! scans a fixed image and is pinned down exactly.

use vstd::prelude::*;
use crate::matcher::{MemMatch, matches_up_to, is_match_at, find_matches};
use crate::parser::{
    MapSegment,
    parse_maps_line,
    well_formed_line,
    label_field,
    heap_label,
    stack_label,
};
use crate::window::{ScanWindow, CHUNK_SIZE, window_run, valid_run, run_total, lemma_reading_progress};

verus! {

/// Why a scan run aborted.  A malformed mapping line is never fatal —
/// the orchestrator skips it — so only read failures appear here.
#[derive(Clone, Copy, Debug, PartialEq, Eq, Structural)]
pub enum ScanError {
    /// The target denies access to its memory.
    AccessDenied,
    /// The target process has exited or never existed.
    ProcessNotFound,
    /// Any other read failure, or a read that transferred nothing.
    ReadFailed,
}

/// The code a failed read reports for a missing target process.
pub const ERRNO_NO_PROCESS: i32 = 3;

/// The code a failed read reports for a forbidden operation.
pub const ERRNO_NOT_PERMITTED: i32 = 1;

/// The code a failed read reports for denied permission.
pub const ERRNO_PERMISSION: i32 = 13;

/// Sorts a raw read-failure code into the scan's error taxonomy.
pub fn classify_errno(errno: i32) -> (e: ScanError)
    ensures
        e == ScanError::ProcessNotFound <==> errno == ERRNO_NO_PROCESS,
        e == ScanError::AccessDenied <==> (errno == ERRNO_NOT_PERMITTED || errno
            == ERRNO_PERMISSION),
        e == ScanError::ReadFailed <==> (errno != ERRNO_NO_PROCESS && errno != ERRNO_NOT_PERMITTED
            && errno != ERRNO_PERMISSION),
{
    if errno == ERRNO_NO_PROCESS {
        ScanError::ProcessNotFound
    } else if errno == ERRNO_NOT_PERMITTED || errno == ERRNO_PERMISSION {
        ScanError::AccessDenied
    } else {
        ScanError::ReadFailed
    }
}

/// Relies on nix::sys::uio::process_vm_readv: one vectored read with a
/// single local buffer and a single remote range of `len` bytes at
/// `base` in the target's address space.  On success it reports the
/// number of bytes transferred, never more than requested; a failure
/// carries the raw error code.  The bytes observed belong to a running
/// process, so nothing relates them to the arguments.
#[verifier::external_body]
fn read_remote_chunk(pid: i32, base: u64, len: usize, buf: &mut Vec<u8>) -> (r: Result<usize, i32>)
    requires
        0 < len,
        len <= old(buf).len(),
    ensures
        final(buf)@.len() == old(buf)@.len(),
        r matches Ok(n) ==> n <= len,
{
    let mut local = [std::io::IoSliceMut::new(buf.as_mut_slice())];
    let remote = [nix::sys::uio::RemoteIoVec { base: base as usize, len }];
    let pid = nix::unistd::Pid::from_raw(pid);
    match nix::sys::uio::process_vm_readv(pid, &mut local, &remote) {
        Ok(n) => Ok(n),
        Err(e) => Err(e as i32),
    }
}

/// A zeroed buffer of the given length, reused across reads.
fn make_buffer(n: usize) -> (v: Vec<u8>)
    ensures
        v@.len() == n,
        forall|i: int| 0 <= i < n ==> v@[i] == 0,
{
    let mut v: Vec<u8> = Vec::new();
    while v.len() < n
        invariant
            v@.len() <= n,
            forall|i: int| 0 <= i < v@.len() ==> v@[i] == 0,
        decreases n - v@.len(),
    {
        v.push(0);
    }
    v
}

/// Streams through one segment chunk by chunk, reporting every aligned
/// occurrence of `target` the reads observed.
///
/// Each window reads at most `CHUNK_SIZE` bytes and the cursor advances
/// by the bytes actually transferred, so a partial transfer is honored:
/// only the valid prefix of the buffer is scanned.  A failed read — and
/// a read that transferred nothing, which could never finish the
/// segment — aborts with the classified error and no retry.
///
/// Successive windows deliberately do not overlap.  While every
/// transfer is full, window boundaries are multiples of four and no
/// aligned occurrence can straddle two windows — `scan_segment_image`
/// below proves that for a fixed image — but after a partial transfer
/// an occurrence crossing the new boundary is not reported.
pub fn scan_segment(pid: i32, seg: &MapSegment, target: i32) -> (r: Result<Vec<MemMatch>, ScanError>)
    requires
        seg.wf(),
    ensures
        r matches Ok(ms) ==> forall|k: int|
            0 <= k < ms@.len() ==> ms@[k].value == target && seg.start_addr <= ms@[k].addr
                && ms@[k].addr + 4 <= seg.end_addr,
{
    let mut buf = make_buffer(CHUNK_SIZE);
    let mut w = ScanWindow::new(seg);
    let ghost w0 = w;
    let ghost mut reads: Seq<int> = Seq::empty();
    let mut out: Vec<MemMatch> = Vec::new();
    while w.base < w.end_addr
        invariant
            w.wf(),
            w.end_addr == seg.end_addr,
            seg.start_addr <= w.base,
            buf@.len() == CHUNK_SIZE,
            w0.base == seg.start_addr,
            w0.end_addr == seg.end_addr,
            valid_run(w0, reads),
            w == window_run(w0, reads),
            forall|k: int|
                0 <= k < out@.len() ==> out@[k].value == target && seg.start_addr <= out@[k].addr
                    && out@[k].addr + 4 <= seg.end_addr,
        decreases w.end_addr - w.base,
    {
        let len = w.request_len();
        match read_remote_chunk(pid, w.base, len, &mut buf) {
            Result::Err(e) => {
                return Err(classify_errno(e));
            },
            Result::Ok(n) => {
                if n == 0 {
                    return Err(ScanError::ReadFailed);
                }
                let mut found = find_matches(buf.as_slice(), n, w.base, target);
                out.append(&mut found);
                proof {
                    let extended = reads.push(n as int);
                    assert(extended.drop_last() =~= reads);
                    assert forall|i: int| 0 <= i < extended.len() implies 1 <= #[trigger] extended[i]
                        && extended[i] <= window_run(w0, extended.subrange(0, i)).remaining() by {
                        if i < reads.len() {
                            assert(extended.subrange(0, i) =~= reads.subrange(0, i));
                            assert(extended[i] == reads[i]);
                        } else {
                            assert(extended.subrange(0, i) =~= reads);
                        }
                    }
                    reads = extended;
                }
                w.advance(n);
            },
        }
    }
    proof {
        // The run of transfers walked the segment exactly once: the
        // transfer lengths sum to the segment's length.
        lemma_reading_progress(w0, reads);
        assert(run_total(reads) == seg.end_addr - seg.start_addr);
    }
    Ok(out)
}

/// A line whose segment the orchestrator scans: well formed, and labeled
/// with the heap or stack pseudo-name.
pub open spec fn accepted_line(s: Seq<u8>) -> bool {
    well_formed_line(s) && (label_field(s) == heap_label() || label_field(s) == stack_label())
}

/// The accepted lines of a mapping table, in order.
pub open spec fn accepted_lines(ls: Seq<Seq<u8>>) -> Seq<Seq<u8>>
    decreases ls.len(),
{
    if ls.len() == 0 {
        Seq::empty()
    } else {
        accepted_lines(ls.drop_last()) + if accepted_line(ls.last()) {
            seq![ls.last()]
        } else {
            Seq::empty()
        }
    }
}

/// The views of a table's lines.
pub open spec fn line_views(ls: Seq<Vec<u8>>) -> Seq<Seq<u8>> {
    ls.map_values(|l: Vec<u8>| l@)
}

/// A table with one accepted line has a nonempty accepted sequence.
proof fn lemma_accepted_nonempty(ls: Seq<Seq<u8>>, i: int)
    requires
        0 <= i < ls.len(),
        accepted_line(ls[i]),
    ensures
        accepted_lines(ls).len() >= 1,
    decreases ls.len(),
{
    if i < ls.len() - 1 {
        lemma_accepted_nonempty(ls.drop_last(), i);
    }
}

/// What one whole scan reports: the accepted segments, in mapping-table
/// order, and every match found inside them.
pub struct ScanOutcome {
    /// One descriptor per accepted mapping line.
    pub segments: Vec<MapSegment>,
    /// Every reported occurrence, grouped by segment in table order.
    pub matches: Vec<MemMatch>,
}

/// Scans a whole mapping table: parses each line, skips malformed lines
/// and segments that are not anonymous growth regions, and streams
/// through each accepted segment.
///
/// On success the reported segments are exactly those of the accepted
/// lines, in order, and every match carries the target value and lies
/// within an accepted segment.  A failed remote read aborts the whole
/// run with its classified error, since a vanished or forbidden target
/// voids the remaining address space; a table that accepts no line is
/// never read from and always succeeds.
#[verifier::spinoff_prover]
#[verifier::rlimit(50)]
pub fn scan_process(pid: i32, lines: &Vec<Vec<u8>>, target: i32) -> (r: Result<
    ScanOutcome,
    ScanError,
>)
    ensures
        r matches Ok(out) ==> {
            &&& out.segments@.len() == accepted_lines(line_views(lines@)).len()
            &&& forall|i: int|
                0 <= i < out.segments@.len() ==> (#[trigger] out.segments@[i]).models_line(
                    accepted_lines(line_views(lines@))[i],
                ) && out.segments@[i].wf()
            &&& forall|k: int|
                0 <= k < out.matches@.len() ==> (#[trigger] out.matches@[k]).value == target
                    && exists|j: int|
                    0 <= j < out.segments@.len() && out.segments@[j].start_addr
                        <= out.matches@[k].addr && out.matches@[k].addr + 4
                        <= out.segments@[j].end_addr
        },
        r is Err ==> accepted_lines(line_views(lines@)).len() >= 1,
{
    let ghost all = line_views(lines@);
    let mut segments: Vec<MapSegment> = Vec::new();
    let mut matches: Vec<MemMatch> = Vec::new();
    let mut i: usize = 0;
    while i < lines.len()
        invariant
            0 <= i <= lines@.len(),
            all == line_views(lines@),
            segments@.len() == accepted_lines(all.subrange(0, i as int)).len(),
            forall|j: int|
                0 <= j < segments@.len() ==> (#[trigger] segments@[j]).models_line(
                    accepted_lines(all.subrange(0, i as int))[j],
                ) && segments@[j].wf(),
            forall|k: int|
                0 <= k < matches@.len() ==> (#[trigger] matches@[k]).value == target && exists|
                    j: int,
                |
                    0 <= j < segments@.len() && segments@[j].start_addr <= matches@[k].addr
                        && matches@[k].addr + 4 <= segments@[j].end_addr,
        decreases lines@.len() - i,
    {
        proof {
            assert(all.subrange(0, i + 1).drop_last() =~= all.subrange(0, i as int));
            assert(all.subrange(0, i + 1).last() == lines@[i as int]@);
        }
        let line = &lines[i];
        match parse_maps_line(line.as_slice()) {
            Result::Ok(seg) => {
                if seg.is_anonmyous_map() {
                    match scan_segment(pid, &seg, target) {
                        Result::Ok(mut found) => {
                            let ghost segs0 = segments@;
                            let ghost matches0 = matches@;
                            let ghost found0 = found@;
                            segments.push(seg);
                            matches.append(&mut found);
                            proof {
                                assert forall|k: int|
                                    0 <= k < matches@.len() implies (#[trigger] matches@[k]).value
                                    == target && exists|j: int|
                                    0 <= j < segments@.len() && segments@[j].start_addr
                                        <= matches@[k].addr && matches@[k].addr + 4
                                        <= segments@[j].end_addr by {
                                    if k < matches0.len() {
                                        assert(matches@[k] == matches0[k]);
                                        let j = choose|j: int|
                                            0 <= j < segs0.len() && segs0[j].start_addr
                                                <= matches0[k].addr && matches0[k].addr + 4
                                                <= segs0[j].end_addr;
                                        assert(segments@[j] == segs0[j]);
                                    } else {
                                        assert(matches@[k] == found0[k - matches0.len()]);
                                        let j = segs0.len() as int;
                                        assert(segments@[j] == seg);
                                    }
                                }
                            }
                        },
                        Result::Err(e) => {
                            proof {
                                assert(accepted_line(all[i as int]));
                                lemma_accepted_nonempty(all, i as int);
                            }
                            return Err(e);
                        },
                    }
                } else {
                    proof {
                        assert(!accepted_line(all.subrange(0, i + 1).last()));
                    }
                }
            },
            Result::Err(_) => {
                proof {
                    assert(!accepted_line(all.subrange(0, i + 1).last()));
                }
            },
        }
        i = i + 1;
    }
    proof {
        assert(all.subrange(0, lines@.len() as int) =~= all);
        assert(segments@.len() == accepted_lines(all).len());
        assert(forall|j: int|
            0 <= j < segments@.len() ==> (#[trigger] segments@[j]).models_line(
                accepted_lines(all)[j],
            ) && segments@[j].wf());
    }
    Ok(ScanOutcome { segments, matches })
}

/// Chunking loses no match: scanning one more chunk of an image extends
/// the match sequence by exactly the chunk's own matches, as long as the
/// chunk starts at an aligned offset.  `kk` is the chunk's full length
/// and `k` the scanned part of it.
proof fn lemma_matches_split(b: Seq<u8>, s: u64, t: i32, o: int, k: int, kk: int)
    requires
        o % 4 == 0,
        0 <= o,
        0 <= k <= kk,
        o + kk <= b.len(),
        s + b.len() <= u64::MAX,
    ensures
        matches_up_to(b, s, t, o + k) == matches_up_to(b, s, t, o) + matches_up_to(
            b.subrange(o, o + kk),
            (s + o) as u64,
            t,
            k,
        ),
    decreases k,
{
    let b2 = b.subrange(o, o + kk);
    if k == 0 {
        assert(matches_up_to(b, s, t, o) + Seq::<MemMatch>::empty() =~= matches_up_to(b, s, t, o));
    } else {
        lemma_matches_split(b, s, t, o, k - 1, kk);
        if o + k < 4 {
            assert(k < 4);
        } else if k < 4 {
            assert((o + k) % 4 == k % 4);
            assert((o + k) % 4 != 0);
            assert(!is_match_at(b, t, o + k - 4));
            assert(matches_up_to(b, s, t, o + k) == matches_up_to(b, s, t, o + k - 1));
        } else {
            assert((o + k) % 4 == k % 4);
            assert(b2.len() == kk);
            assert(is_match_at(b, t, o + k - 4) <==> is_match_at(b2, t, k - 4)) by {
                assert(b2[k - 4] == b[o + k - 4]);
                assert(b2[k - 3] == b[o + k - 3]);
                assert(b2[k - 2] == b[o + k - 2]);
                assert(b2[k - 1] == b[o + k - 1]);
                assert((o + k - 4) % 4 == (k - 4) % 4);
                assert(o + k - 4 + 4 <= b.len());
                assert(k - 4 + 4 <= b2.len());
            }
            if is_match_at(b, t, o + k - 4) {
                assert((s + (o + k) - 4) as u64 == ((s + o) as u64 + k - 4) as u64);
            }
        }
        assert(matches_up_to(b, s, t, o + k) =~= matches_up_to(b, s, t, o) + matches_up_to(
            b2,
            (s + o) as u64,
            t,
            k,
        ));
    }
}

/// All matches of an image laid out at address `s`: what a scan of a
/// fixed byte image must report.
pub open spec fn image_matches(img: Seq<u8>, s: u64, t: i32) -> Seq<MemMatch> {
    matches_up_to(img, s, t, img.len() as int)
}

/// Scans a fixed in-memory image of one segment, chunk by chunk, exactly
/// as the remote scan walks a segment whose every read is full.
///
/// The result is exactly the image's match sequence: because every chunk
/// boundary is a multiple of four and matches are aligned, no occurrence
/// straddles two chunks, so chunked scanning reports the same matches as
/// one pass over the whole image.
pub fn scan_segment_image(seg: &MapSegment, image: &[u8], target: i32) -> (r: Vec<MemMatch>)
    requires
        seg.wf(),
        image@.len() == seg.end_addr - seg.start_addr,
    ensures
        r@ == image_matches(image@, seg.start_addr, target),
{
    let mut out: Vec<MemMatch> = Vec::new();
    let mut o: usize = 0;
    while o < image.len()
        invariant
            0 <= o <= image@.len(),
            image@.len() == seg.end_addr - seg.start_addr,
            seg.wf(),
            o % 4 == 0 || o == image@.len(),
            out@ == matches_up_to(image@, seg.start_addr, target, o as int),
        decreases image@.len() - o,
    {
        let m = if image.len() - o < CHUNK_SIZE {
            image.len() - o
        } else {
            CHUNK_SIZE
        };
        let chunk = vstd::slice::slice_subrange(image, o, o + m);
        let base = seg.start_addr + (o as u64);
        let mut found = find_matches(chunk, m, base, target);
        proof {
            lemma_matches_split(image@, seg.start_addr, target, o as int, m as int, m as int);
        }
        out.append(&mut found);
        o = o + m;
    }
    out
}

/// Idempotence: two scans of one unchanged, non-racing memory image
/// report identical match sequences — the matches are a function of the
/// image, the base address and the target alone, so any two results
/// that each meet the scan's contract are equal.
pub proof fn lemma_scan_image_idempotent(
    img: Seq<u8>,
    s: u64,
    t: i32,
    r1: Seq<MemMatch>,
    r2: Seq<MemMatch>,
)
    requires
        r1 == image_matches(img, s, t),
        r2 == image_matches(img, s, t),
    ensures
        r1 == r2,
{
}

} // verus!
