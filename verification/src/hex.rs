//! Hexadecimal address parsing for mapping-table lines.

use vstd::prelude::*;

verus! {

/// True for the ASCII digits and letters that denote a hex digit.
pub open spec fn is_hex_digit(b: u8) -> bool {
    (0x30 <= b && b <= 0x39) || (0x61 <= b && b <= 0x66) || (0x41 <= b && b <= 0x46)
}

/// Numeric value of one hex digit.
pub open spec fn hex_digit_value(b: u8) -> nat {
    if 0x30 <= b && b <= 0x39 {
        (b - 0x30) as nat
    } else if 0x61 <= b && b <= 0x66 {
        (b - 0x61 + 10) as nat
    } else {
        (b - 0x41 + 10) as nat
    }
}

/// Value of a big-endian string of hex digits, most significant first.
pub open spec fn hex_value(s: Seq<u8>) -> nat
    decreases s.len(),
{
    if s.len() == 0 {
        0
    } else {
        hex_value(s.drop_last()) * 16 + hex_digit_value(s.last())
    }
}

/// A byte string is a well-formed hex numeral: nonempty, hex digits only.
pub open spec fn is_hex_numeral(s: Seq<u8>) -> bool {
    s.len() > 0 && forall|i: int| 0 <= i < s.len() ==> is_hex_digit(s[i])
}

/// Numeric value of one hex digit, or `None` for any other byte.
fn hex_digit(b: u8) -> (r: Option<u8>)
    ensures
        r is Some <==> is_hex_digit(b),
        r is Some ==> r->0 == hex_digit_value(b) && r->0 < 16,
{
    if 0x30 <= b && b <= 0x39 {
        Some(b - 0x30)
    } else if 0x61 <= b && b <= 0x66 {
        Some(b - 0x61 + 10)
    } else if 0x41 <= b && b <= 0x46 {
        Some(b - 0x41 + 10)
    } else {
        None
    }
}

/// Appending digits to a hex numeral never decreases its value; in
/// particular the value of a prefix, scaled once, bounds the whole.
proof fn lemma_hex_value_extend(s: Seq<u8>, i: int)
    requires
        0 <= i < s.len(),
    ensures
        hex_value(s) >= hex_value(s.subrange(0, i)) * 16 + hex_digit_value(s[i]),
    decreases s.len() - i,
{
    if i == s.len() - 1 {
        assert(s.subrange(0, i) =~= s.drop_last());
    } else {
        lemma_hex_value_extend(s, i + 1);
        let p1 = s.subrange(0, i + 1);
        assert(p1.drop_last() =~= s.subrange(0, i));
        assert(p1.last() == s[i]);
        assert(hex_value(s.subrange(0, i + 1)) == hex_value(s.subrange(0, i)) * 16
            + hex_digit_value(s[i]));
        assert(hex_value(s) >= hex_value(s.subrange(0, i + 1)) * 16 + hex_digit_value(s[i + 1]));
    }
}

/// Parses a whole byte string as an unsigned hexadecimal numeral.
///
/// Returns `None` exactly when the string is empty, contains a byte that is
/// not a hex digit, or denotes a value that does not fit in `u64`.
pub fn parse_hex_u64(s: &[u8]) -> (r: Option<u64>)
    ensures
        r is Some <==> is_hex_numeral(s@) && hex_value(s@) <= u64::MAX,
        r is Some ==> r->0 == hex_value(s@),
{
    if s.len() == 0 {
        return None;
    }
    let mut acc: u64 = 0;
    let mut i: usize = 0;
    while i < s.len()
        invariant
            0 <= i <= s@.len(),
            s@.len() > 0,
            forall|j: int| 0 <= j < i ==> is_hex_digit(s@[j]),
            acc == hex_value(s@.subrange(0, i as int)),
        decreases s@.len() - i,
    {
        let d = match hex_digit(s[i]) {
            Some(d) => d,
            None => {
                return None;
            },
        };
        if acc > (u64::MAX - (d as u64)) / 16 {
            proof {
                lemma_hex_value_extend(s@, i as int);
                assert(acc * 16 + hex_digit_value(s@[i as int]) > u64::MAX) by (nonlinear_arith)
                    requires
                        acc > (u64::MAX - (d as u64)) / 16,
                        d < 16,
                        hex_digit_value(s@[i as int]) == d,
                        acc <= u64::MAX,
                ;
            }
            return None;
        }
        proof {
            assert(acc * 16 + d <= u64::MAX) by (nonlinear_arith)
                requires
                    acc <= (u64::MAX - (d as u64)) / 16,
                    d < 16,
            ;
            assert(s@.subrange(0, i + 1).drop_last() =~= s@.subrange(0, i as int));
        }
        acc = acc * 16 + (d as u64);
        i = i + 1;
    }
    proof {
        assert(s@.subrange(0, s@.len() as int) =~= s@);
    }
    Some(acc)
}

} // verus!
