//! Mapping-table line parser and segment classifier.
//!
//! One line of the mapping table reads `"<start>-<end> <perms> <offset>
//! <dev> <inode> <pathname>"`, fields separated by single spaces, the
//! pathname optional and possibly empty.  The parser recovers the two
//! addresses and the last field; the classifier keeps only the heap and
//! stack pseudo-names.

use vstd::prelude::*;
use crate::hex::{is_hex_numeral, hex_value, parse_hex_u64};

verus! {

/// The bytes of the heap pseudo-name `"[heap]"`.
pub open spec fn heap_label() -> Seq<u8> {
    seq![0x5bu8, 0x68u8, 0x65u8, 0x61u8, 0x70u8, 0x5du8]
}

/// The bytes of the stack pseudo-name `"[stack]"`.
pub open spec fn stack_label() -> Seq<u8> {
    seq![0x5bu8, 0x73u8, 0x74u8, 0x61u8, 0x63u8, 0x6bu8, 0x5du8]
}

/// Index of the first space in `s`, or `s.len()` when there is none.
pub open spec fn first_space_idx(s: Seq<u8>) -> int
    decreases s.len(),
{
    if s.len() == 0 {
        0
    } else if s[0] == 0x20 {
        0
    } else {
        1 + first_space_idx(s.drop_first())
    }
}

/// Index of the last space in `s`, or `-1` when there is none.
pub open spec fn last_space_idx(s: Seq<u8>) -> int
    decreases s.len(),
{
    if s.len() == 0 {
        -1
    } else if s.last() == 0x20 {
        s.len() - 1
    } else {
        last_space_idx(s.drop_last())
    }
}

/// Index of the first dash in `s`, or `s.len()` when there is none.
pub open spec fn first_dash_idx(s: Seq<u8>) -> int
    decreases s.len(),
{
    if s.len() == 0 {
        0
    } else if s[0] == 0x2d {
        0
    } else {
        1 + first_dash_idx(s.drop_first())
    }
}

/// How many dashes `s` holds.
pub open spec fn dash_count(s: Seq<u8>) -> nat
    decreases s.len(),
{
    if s.len() == 0 {
        0
    } else {
        dash_count(s.drop_last()) + if s.last() == 0x2d { 1nat } else { 0nat }
    }
}

/// A line has at least two space-separated fields.
pub open spec fn has_two_fields(s: Seq<u8>) -> bool {
    first_space_idx(s) < s.len()
}

/// The first space-separated field: the address range.
pub open spec fn addr_field(s: Seq<u8>) -> Seq<u8> {
    s.subrange(0, first_space_idx(s))
}

/// The last space-separated field: the backing description.
pub open spec fn label_field(s: Seq<u8>) -> Seq<u8> {
    s.subrange(last_space_idx(s) + 1, s.len() as int)
}

/// The start component of the address field: the digits before its dash.
pub open spec fn start_digits(s: Seq<u8>) -> Seq<u8> {
    addr_field(s).subrange(0, first_dash_idx(addr_field(s)))
}

/// The end component of the address field: the digits after its dash.
pub open spec fn end_digits(s: Seq<u8>) -> Seq<u8> {
    addr_field(s).subrange(first_dash_idx(addr_field(s)) + 1, addr_field(s).len() as int)
}

/// The address field splits on its dash into two hex numerals that fit
/// in an address.
pub open spec fn has_valid_addresses(s: Seq<u8>) -> bool {
    &&& is_hex_numeral(start_digits(s))
    &&& hex_value(start_digits(s)) <= u64::MAX
    &&& is_hex_numeral(end_digits(s))
    &&& hex_value(end_digits(s)) <= u64::MAX
}

/// A well-formed mapping line: two fields, an address field with exactly
/// one dash, two valid hex addresses, and a nonempty range.
pub open spec fn well_formed_line(s: Seq<u8>) -> bool {
    &&& has_two_fields(s)
    &&& dash_count(addr_field(s)) == 1
    &&& has_valid_addresses(s)
    &&& hex_value(start_digits(s)) < hex_value(end_digits(s))
}

/// Why a mapping line was rejected.
#[derive(Clone, Copy, Debug, PartialEq, Eq, Structural)]
pub enum ParseError {
    /// Fewer than two space-separated fields.
    MissingFields,
    /// The first field does not split on a dash into exactly two parts.
    BadAddressShape,
    /// An address component is empty, has a non-hex byte, or overflows.
    BadHexValue,
    /// The start address is not below the end address.
    EmptyRange,
}

/// One contiguous virtual-address range of the target process.
#[derive(Debug, PartialEq, Eq)]
pub struct MapSegment {
    /// First address of the range.
    pub start_addr: u64,
    /// First address past the range.
    pub end_addr: u64,
    /// The mapping's backing description: a file path, a pseudo-name
    /// such as `"[heap]"`, or empty for unnamed anonymous mappings.
    pub file: Vec<u8>,
}

impl MapSegment {
    /// The range is nonempty.
    pub open spec fn wf(self) -> bool {
        self.start_addr < self.end_addr
    }

    /// The segment models what a well-formed mapping line describes.
    pub open spec fn models_line(self, line: Seq<u8>) -> bool {
        &&& well_formed_line(line)
        &&& self.start_addr == hex_value(start_digits(line))
        &&& self.end_addr == hex_value(end_digits(line))
        &&& self.file@ == label_field(line)
    }

    /// True exactly for the heap and stack pseudo-names: the anonymous
    /// growth regions this scanner restricts itself to.
    pub fn is_anonmyous_map(&self) -> (r: bool)
        ensures
            r == (self.file@ == heap_label() || self.file@ == stack_label()),
    {
        let f = self.file.as_slice();
        if f.len() == 6 {
            let r = f[0] == 0x5b && f[1] == 0x68 && f[2] == 0x65 && f[3] == 0x61 && f[4] == 0x70
                && f[5] == 0x5d;
            proof {
                if r {
                    assert(self.file@ =~= heap_label());
                } else {
                    assert(self.file@ != heap_label());
                }
                assert(self.file@.len() != stack_label().len());
            }
            r
        } else if f.len() == 7 {
            let r = f[0] == 0x5b && f[1] == 0x73 && f[2] == 0x74 && f[3] == 0x61 && f[4] == 0x63
                && f[5] == 0x6b && f[6] == 0x5d;
            proof {
                if r {
                    assert(self.file@ =~= stack_label());
                } else {
                    assert(self.file@ != stack_label());
                }
                assert(self.file@.len() != heap_label().len());
            }
            r
        } else {
            proof {
                assert(self.file@.len() != heap_label().len());
                assert(self.file@.len() != stack_label().len());
            }
            false
        }
    }
}

/// The recursive first-space index is the least index holding a space.
proof fn lemma_first_space_at(s: Seq<u8>, i: int)
    requires
        0 <= i <= s.len(),
        forall|j: int| 0 <= j < i ==> s[j] != 0x20,
        i < s.len() ==> s[i] == 0x20,
    ensures
        first_space_idx(s) == i,
    decreases i,
{
    if s.len() == 0 {
    } else if i == 0 {
    } else {
        let t = s.drop_first();
        assert(forall|j: int| 0 <= j < i - 1 ==> t[j] == s[j + 1] && t[j] != 0x20);
        lemma_first_space_at(t, i - 1);
    }
}

/// The recursive last-space index is the greatest index holding a space.
proof fn lemma_last_space_at(s: Seq<u8>, i: int)
    requires
        -1 <= i < s.len(),
        forall|j: int| i < j < s.len() ==> s[j] != 0x20,
        0 <= i ==> s[i] == 0x20,
    ensures
        last_space_idx(s) == i,
    decreases s.len(),
{
    if s.len() == 0 {
    } else if i == s.len() - 1 {
    } else {
        let t = s.drop_last();
        assert(forall|j: int| i < j < t.len() ==> t[j] == s[j] && t[j] != 0x20);
        lemma_last_space_at(t, i);
    }
}

/// The recursive first-dash index is the least index holding a dash.
proof fn lemma_first_dash_at(s: Seq<u8>, i: int)
    requires
        0 <= i <= s.len(),
        forall|j: int| 0 <= j < i ==> s[j] != 0x2d,
        i < s.len() ==> s[i] == 0x2d,
    ensures
        first_dash_idx(s) == i,
    decreases i,
{
    if s.len() == 0 {
    } else if i == 0 {
    } else {
        let t = s.drop_first();
        assert(forall|j: int| 0 <= j < i - 1 ==> t[j] == s[j + 1] && t[j] != 0x2d);
        lemma_first_dash_at(t, i - 1);
    }
}

/// Scanning positions of a byte string: where its first and last spaces
/// stand, if any.
fn find_spaces(s: &[u8]) -> (r: (usize, usize))
    ensures
        r.0 == first_space_idx(s@),
        r.0 <= s@.len(),
        r.1 == last_space_idx(s@) + 1,
        r.1 <= s@.len(),
{
    let mut first: usize = s.len();
    let mut last: usize = 0;
    let mut i: usize = 0;
    while i < s.len()
        invariant
            0 <= i <= s@.len(),
            first == s@.len() || (first < i && s@[first as int] == 0x20),
            first == s@.len() ==> forall|j: int| 0 <= j < i ==> s@[j] != 0x20,
            forall|j: int| 0 <= j < first && j < i ==> s@[j] != 0x20,
            last == 0 ==> forall|j: int| 0 <= j < i ==> s@[j] != 0x20,
            last > 0 ==> last <= i && s@[last - 1] == 0x20,
            forall|j: int| last <= j < i ==> s@[j] != 0x20,
        decreases s@.len() - i,
    {
        if s[i] == 0x20 {
            if first == s.len() {
                first = i;
            }
            last = i + 1;
        }
        i = i + 1;
    }
    proof {
        if first == s@.len() {
            lemma_first_space_at(s@, s@.len() as int);
        } else {
            lemma_first_space_at(s@, first as int);
        }
        lemma_last_space_at(s@, last as int - 1);
    }
    (first, last)
}

/// Position of the first dash in a byte string and the number of dashes.
fn find_dashes(s: &[u8]) -> (r: (usize, usize))
    ensures
        r.0 == first_dash_idx(s@),
        r.1 == dash_count(s@),
        r.1 > 0 ==> r.0 < s@.len(),
{
    let mut first: usize = s.len();
    let mut count: usize = 0;
    let mut i: usize = 0;
    while i < s.len()
        invariant
            0 <= i <= s@.len(),
            first == s@.len() || (first < i && s@[first as int] == 0x2d),
            first == s@.len() ==> forall|j: int| 0 <= j < i ==> s@[j] != 0x2d,
            forall|j: int| 0 <= j < first && j < i ==> s@[j] != 0x2d,
            count == dash_count(s@.subrange(0, i as int)),
            count <= i,
            count > 0 ==> first < i,
        decreases s@.len() - i,
    {
        proof {
            assert(s@.subrange(0, i + 1).drop_last() =~= s@.subrange(0, i as int));
        }
        if s[i] == 0x2d {
            if first == s.len() {
                first = i;
            }
            count = count + 1;
        }
        i = i + 1;
    }
    proof {
        if first == s@.len() {
            lemma_first_dash_at(s@, s@.len() as int);
        } else {
            lemma_first_dash_at(s@, first as int);
        }
        assert(s@.subrange(0, s@.len() as int) =~= s@);
    }
    (first, count)
}

/// Parses one mapping-table line into a segment descriptor.
///
/// Succeeds exactly on well-formed lines, recovering both addresses and
/// the last field; each malformed line is rejected with the reason,
/// never a panic, so the caller can skip it and go on.
pub fn parse_maps_line(line: &[u8]) -> (r: Result<MapSegment, ParseError>)
    ensures
        r is Ok <==> well_formed_line(line@),
        r matches Ok(seg) ==> seg.models_line(line@) && seg.wf(),
        r == Result::<MapSegment, ParseError>::Err(ParseError::MissingFields) <==> !has_two_fields(
            line@,
        ),
        r == Result::<MapSegment, ParseError>::Err(ParseError::BadAddressShape) <==> (
        has_two_fields(line@) && dash_count(addr_field(line@)) != 1),
        r == Result::<MapSegment, ParseError>::Err(ParseError::BadHexValue) <==> (has_two_fields(
            line@,
        ) && dash_count(addr_field(line@)) == 1 && !has_valid_addresses(line@)),
        r == Result::<MapSegment, ParseError>::Err(ParseError::EmptyRange) <==> (has_two_fields(
            line@,
        ) && dash_count(addr_field(line@)) == 1 && has_valid_addresses(line@) && hex_value(
            start_digits(line@),
        ) >= hex_value(end_digits(line@))),
{
    let (first_sp, after_last_sp) = find_spaces(line);
    if first_sp == line.len() {
        return Err(ParseError::MissingFields);
    }
    let addr = vstd::slice::slice_subrange(line, 0, first_sp);
    let (dash, dashes) = find_dashes(addr);
    if dashes != 1 {
        return Err(ParseError::BadAddressShape);
    }
    let start_part = vstd::slice::slice_subrange(addr, 0, dash);
    let end_part = vstd::slice::slice_subrange(addr, dash + 1, addr.len());
    let start_addr = match parse_hex_u64(start_part) {
        Some(v) => v,
        None => {
            return Err(ParseError::BadHexValue);
        },
    };
    let end_addr = match parse_hex_u64(end_part) {
        Some(v) => v,
        None => {
            return Err(ParseError::BadHexValue);
        },
    };
    if start_addr >= end_addr {
        return Err(ParseError::EmptyRange);
    }
    let label = vstd::slice::slice_subrange(line, after_last_sp, line.len());
    let seg = MapSegment {
        start_addr,
        end_addr,
        file: vstd::slice::slice_to_vec(label),
    };
    Ok(seg)
}

} // verus!
