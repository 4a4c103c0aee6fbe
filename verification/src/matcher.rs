//! Value matcher: finds aligned little-endian occurrences of a 32-bit
//! value in a buffer and reports absolute addresses.
//!
//! Only offsets that are multiples of four are considered, matching the
//! natural placement of integers; an occurrence straddling the end of
//! the scanned prefix is never reported.

use vstd::prelude::*;

verus! {

/// One reported occurrence: the absolute address it was found at and
/// the value itself.
#[derive(Clone, Copy, Debug, PartialEq, Eq, Structural)]
pub struct MemMatch {
    /// Absolute address of the first byte of the occurrence.
    pub addr: u64,
    /// The matched value.
    pub value: i32,
}

/// Little-endian unsigned reading of the four bytes of `b` at `i`.
pub open spec fn le_word_at(b: Seq<u8>, i: int) -> int {
    b[i] + b[i + 1] * 0x100 + b[i + 2] * 0x10000 + b[i + 3] * 0x1000000
}

/// The unsigned 32-bit pattern that encodes a signed 32-bit value in
/// two's complement.
pub open spec fn word_of_i32(t: i32) -> int {
    if t >= 0 {
        t as int
    } else {
        t + 0x1_0000_0000
    }
}

/// The four bytes at offset `i` of `b` hold the little-endian encoding
/// of `t`, at an aligned offset.
pub open spec fn is_match_at(b: Seq<u8>, t: i32, i: int) -> bool {
    &&& 0 <= i
    &&& i % 4 == 0
    &&& i + 4 <= b.len()
    &&& le_word_at(b, i) == word_of_i32(t)
}

/// All matches of `t` in `b` whose four bytes lie below offset `n`,
/// in ascending address order, each reported at `base` plus its offset.
pub open spec fn matches_up_to(b: Seq<u8>, base: u64, t: i32, n: int) -> Seq<MemMatch>
    decreases n,
{
    if n < 4 {
        Seq::empty()
    } else {
        matches_up_to(b, base, t, n - 1) + if is_match_at(b, t, n - 4) && n <= b.len() {
            seq![MemMatch { addr: (base + n - 4) as u64, value: t }]
        } else {
            Seq::empty()
        }
    }
}

/// Between two scan limits with no new aligned offset, the match
/// sequence does not change.
proof fn lemma_matches_constant(b: Seq<u8>, base: u64, t: i32, a: int, m: int, n: int)
    requires
        a % 4 == 0,
        a <= m <= n <= a + 3,
    ensures
        matches_up_to(b, base, t, n) == matches_up_to(b, base, t, m),
    decreases n - m,
{
    if m < n {
        lemma_matches_constant(b, base, t, a, m, n - 1);
        if n >= 4 {
            assert(n % 4 != 0);
            assert(!is_match_at(b, t, n - 4));
        }
    }
}

/// Every reported match is aligned, fits below the scan limit, carries
/// the target value, and lies at or above the base address.
pub proof fn lemma_matches_bounds(b: Seq<u8>, base: u64, t: i32, n: int)
    requires
        base + n <= u64::MAX + 1,
    ensures
        forall|k: int|
            #![trigger matches_up_to(b, base, t, n)[k]]
            0 <= k < matches_up_to(b, base, t, n).len() ==> {
                let m = matches_up_to(b, base, t, n)[k];
                &&& m.value == t
                &&& base <= m.addr
                &&& (m.addr - base) % 4 == 0
                &&& m.addr + 4 <= base + n
                &&& m.addr + 4 <= base + b.len()
            },
    decreases n,
{
    if n >= 4 {
        lemma_matches_bounds(b, base, t, n - 1);
        let prev = matches_up_to(b, base, t, n - 1);
        let cur = matches_up_to(b, base, t, n);
        assert forall|k: int|
            #![trigger cur[k]]
            0 <= k < cur.len() implies {
            let m = cur[k];
            &&& m.value == t
            &&& base <= m.addr
            &&& (m.addr - base) % 4 == 0
            &&& m.addr + 4 <= base + n
            &&& m.addr + 4 <= base + b.len()
        } by {
            if k < prev.len() {
                assert(cur[k] == prev[k]);
            } else {
                assert(is_match_at(b, t, n - 4));
                assert(cur[k] == MemMatch { addr: (base + n - 4) as u64, value: t });
            }
        }
    }
}

/// Scans the first `size` bytes of `buf` for every aligned little-endian
/// occurrence of `target`, reporting each at `base` plus its offset.
///
/// The result is exactly the match sequence of the scanned prefix: an
/// occurrence is reported if and only if its four bytes lie within the
/// prefix at an offset that is a multiple of four.
pub fn find_matches(buf: &[u8], size: usize, base: u64, target: i32) -> (r: Vec<MemMatch>)
    requires
        size <= buf@.len(),
        base + size <= u64::MAX,
    ensures
        r@ == matches_up_to(buf@, base, target, size as int),
        forall|k: int|
            0 <= k < r@.len() ==> {
                &&& r@[k].value == target
                &&& base <= r@[k].addr
                &&& (r@[k].addr - base) % 4 == 0
                &&& r@[k].addr + 4 <= base + size
            },
{
    let target_word: u32 = if target >= 0 {
        target as u32
    } else {
        ((target as i64) + 0x1_0000_0000i64) as u32
    };
    let mut out: Vec<MemMatch> = Vec::new();
    let mut i: usize = 0;
    while 4 <= size && i <= size - 4
        invariant
            size <= buf@.len(),
            base + size <= u64::MAX,
            i % 4 == 0,
            i + 4 <= size + 4,
            target_word == word_of_i32(target),
            out@ == matches_up_to(buf@, base, target, i + 3),
        decreases size - i,
    {
        let w: u32 = (buf[i] as u32) + (buf[i + 1] as u32) * 0x100 + (buf[i + 2] as u32) * 0x10000
            + (buf[i + 3] as u32) * 0x1000000;
        proof {
            assert(matches_up_to(buf@, base, target, i + 4) == matches_up_to(
                buf@,
                base,
                target,
                i + 3,
            ) + if is_match_at(buf@, target, i as int) {
                seq![MemMatch { addr: (base + i) as u64, value: target }]
            } else {
                Seq::<MemMatch>::empty()
            });
            lemma_matches_constant(buf@, base, target, i + 4, i + 4, i + 7);
        }
        if w == target_word {
            out.push(MemMatch { addr: base + (i as u64), value: target });
            proof {
                assert(out@ =~= matches_up_to(buf@, base, target, i + 7));
            }
        } else {
            proof {
                assert(out@ =~= matches_up_to(buf@, base, target, i + 7));
            }
        }
        i = i + 4;
    }
    proof {
        lemma_matches_constant(buf@, base, target, i as int, size as int, i + 3);
        lemma_matches_bounds(buf@, base, target, size as int);
    }
    out
}

} // verus!
