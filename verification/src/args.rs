//! Configuration values handed in by the command-line layer, and the
//! parser for size arguments such as `1G` or `64k`.

use vstd::prelude::*;

verus! {

/// Which classifier a scan uses.
#[derive(Clone, Copy, PartialEq, Eq, Structural, Debug)]
pub enum CriteriaArg {
    Text,
    Deflate,
}

/// Why a size argument was rejected.
#[derive(Clone, Copy, PartialEq, Eq, Structural, Debug)]
pub enum SizeError {
    /// The leading digits are missing or name a number beyond 64 bits.
    InvalidNumber,
    /// The trailing unit is none of b, k, m, g, t, p in either case.
    UnknownUnit,
    /// The size in bytes does not fit in 64 bits.
    TooLarge,
}

/// An ASCII decimal digit.
pub open spec fn is_digit(b: u8) -> bool {
    0x30 <= b <= 0x39
}

/// Where the digits of a size string end: the index of its first
/// non-digit byte, or its length when every byte is a digit.
pub open spec fn split_point(s: Seq<u8>) -> int
    decreases s.len(),
{
    if s.len() == 0 {
        0
    } else if !is_digit(s[0]) {
        0
    } else {
        1 + split_point(s.drop_first())
    }
}

/// The number an all-digit byte sequence names.
pub open spec fn digits_value(s: Seq<u8>) -> int
    decreases s.len(),
{
    if s.len() == 0 {
        0
    } else {
        digits_value(s.drop_last()) * 10 + (s.last() - 0x30)
    }
}

/// The byte count one unit letter stands for; an absent unit means bytes.
pub open spec fn unit_multiplier(u: Seq<u8>) -> Option<u64> {
    if u.len() == 0 {
        Some(1u64)
    } else if u.len() == 1 {
        spec_unit_byte(u[0])
    } else {
        None
    }
}

/// The byte count one unit letter stands for.
pub open spec fn spec_unit_byte(b: u8) -> Option<u64> {
    if b == 0x62 || b == 0x42 {  // b B
        Some(1u64)
    } else if b == 0x6b || b == 0x4b {  // k K
        Some(1024u64)
    } else if b == 0x6d || b == 0x4d {  // m M
        Some(1048576u64)
    } else if b == 0x67 || b == 0x47 {  // g G
        Some(1073741824u64)
    } else if b == 0x74 || b == 0x54 {  // t T
        Some(1099511627776u64)
    } else if b == 0x70 || b == 0x50 {  // p P
        Some(1125899906842624u64)
    } else {
        None
    }
}

/// What parsing a size string yields: the number its digits name times
/// its unit, or the first reason it is rejected. A string with no digits
/// or digits beyond 64 bits is rejected before its unit is looked at, as
/// is one whose total overflows.
pub open spec fn spec_parse_size(s: Seq<u8>) -> Result<u64, SizeError> {
    let sp = split_point(s);
    let value = digits_value(s.take(sp));
    if sp == 0 || value > u64::MAX {
        Err(SizeError::InvalidNumber)
    } else {
        match unit_multiplier(s.skip(sp)) {
            None => Err(SizeError::UnknownUnit),
            Some(m) => if value * m > u64::MAX {
                Err(SizeError::TooLarge)
            } else {
                Ok((value * m) as u64)
            },
        }
    }
}

/// The split point is wherever the digits stop.
proof fn lemma_split_point_at(s: Seq<u8>, i: int)
    requires
        0 <= i <= s.len(),
        forall|j: int| 0 <= j < i ==> is_digit(s[j]),
        i < s.len() ==> !is_digit(s[i]),
    ensures
        split_point(s) == i,
    decreases s.len(),
{
    if i == 0 {
    } else {
        assert(is_digit(s[0]));
        let t = s.drop_first();
        assert forall|j: int| 0 <= j < i - 1 implies is_digit(t[j]) by {
            assert(t[j] == s[j + 1]);
        }
        if i - 1 < t.len() {
            assert(t[i - 1] == s[i]);
        }
        lemma_split_point_at(t, i - 1);
    }
}

/// Appending one digit multiplies the value by ten and adds the digit.
proof fn lemma_digits_value_push(t: Seq<u8>, b: u8)
    ensures
        digits_value(t.push(b)) == digits_value(t) * 10 + (b - 0x30),
{
    assert(t.push(b).drop_last() =~= t);
    assert(t.push(b).last() == b);
}

/// A digit prefix never names a larger number than the whole digit string.
proof fn lemma_digits_value_prefix_le(s: Seq<u8>, i: int, j: int)
    requires
        0 <= i <= j <= s.len(),
        forall|k: int| 0 <= k < s.len() ==> is_digit(s[k]),
        digits_value(s.take(i)) >= 0,
    ensures
        digits_value(s.take(i)) <= digits_value(s.take(j)),
        digits_value(s.take(j)) >= 0,
    decreases j - i,
{
    if i < j {
        let t = s.take(j - 1);
        assert(s.take(j) =~= t.push(s[j - 1]));
        lemma_digits_value_push(t, s[j - 1]);
        lemma_digits_value_prefix_le(s, i, j - 1);
        assert(is_digit(s[j - 1]));
        assert(digits_value(t) * 10 >= digits_value(t)) by (nonlinear_arith)
            requires
                digits_value(t) >= 0,
        ;
    }
}

/// Parses a size argument: leading decimal digits and an optional unit
/// letter, as the command line takes them.
pub fn parse_size(s: &[u8]) -> (r: Result<u64, SizeError>)
    ensures
        r == spec_parse_size(s@),
{
    let mut i: usize = 0;
    while i < s.len() && 0x30 <= s[i] && s[i] <= 0x39
        invariant
            i <= s@.len(),
            forall|j: int| 0 <= j < i ==> is_digit(s@[j]),
        decreases s@.len() - i,
    {
        i = i + 1;
    }
    proof {
        lemma_split_point_at(s@, i as int);
    }
    if i == 0 {
        return Err(SizeError::InvalidNumber);
    }
    let mut value: u64 = 0;
    let mut j: usize = 0;
    while j < i
        invariant
            0 <= j <= i <= s@.len(),
            1 <= i,
            split_point(s@) == i as int,
            forall|k: int| 0 <= k < i ==> is_digit(s@[k]),
            value == digits_value(s@.take(j as int)),
        decreases i - j,
    {
        let d: u8 = s[j] - 0x30;
        proof {
            assert(s@.take(j + 1) =~= s@.take(j as int).push(s@[j as int]));
            lemma_digits_value_push(s@.take(j as int), s@[j as int]);
        }
        if value > (u64::MAX - d as u64) / 10 {
            proof {
                let dd = d as int;
                assert(value * 10 + dd > u64::MAX) by (nonlinear_arith)
                    requires
                        value > (u64::MAX - dd) / 10,
                        0 <= dd <= 9,
                        value >= 0,
                ;
                let whole = s@.take(i as int);
                assert forall|k: int| 0 <= k < whole.len() implies is_digit(whole[k]) by {
                    assert(whole[k] == s@[k]);
                }
                assert(whole.take(j + 1) =~= s@.take(j + 1));
                assert(digits_value(whole.take(j + 1)) >= 0);
                lemma_digits_value_prefix_le(whole, j + 1, i as int);
                assert(whole.take(i as int) =~= whole);
            }
            return Err(SizeError::InvalidNumber);
        }
        proof {
            let dd = d as int;
            assert(value * 10 + dd <= u64::MAX) by (nonlinear_arith)
                requires
                    value <= (u64::MAX - dd) / 10,
                    0 <= dd <= 9,
                    value >= 0,
            ;
        }
        value = value * 10 + d as u64;
        j = j + 1;
    }
    let multiplier: u64 = if i == s.len() {
        1
    } else if i + 1 == s.len() {
        let u = s[i];
        if u == 0x62 || u == 0x42 {
            1
        } else if u == 0x6b || u == 0x4b {
            1024
        } else if u == 0x6d || u == 0x4d {
            1048576
        } else if u == 0x67 || u == 0x47 {
            1073741824
        } else if u == 0x74 || u == 0x54 {
            1099511627776
        } else if u == 0x70 || u == 0x50 {
            1125899906842624
        } else {
            proof {
                assert(s@.skip(i as int).len() == 1);
                assert(s@.skip(i as int)[0] == s@[i as int]);
            }
            return Err(SizeError::UnknownUnit);
        }
    } else {
        return Err(SizeError::UnknownUnit);
    };
    proof {
        if i < s@.len() && i + 1 == s@.len() {
            assert(s@.skip(i as int).len() == 1);
            assert(s@.skip(i as int)[0] == s@[i as int]);
        }
    }
    match value.checked_mul(multiplier) {
        Some(total) => Ok(total),
        None => Err(SizeError::TooLarge),
    }
}

} // verus!
