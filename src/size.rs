//! Object sizes: parsing a human size string and building a payload.
//!
//! A size is a decimal magnitude optionally followed by a unit suffix `KB`,
//! `MB` or `GB`, in any letter case, with binary multiples (1KB = 1024 bytes).

use vstd::prelude::*;

verus! {

/// Why a size string was refused.
#[derive(Clone, Copy, Debug, PartialEq, Eq)]
pub enum SizeError {
    /// The magnitude is empty or not a decimal number (this covers an
    /// unknown suffix).
    Invalid,
    /// The byte count does not fit in 64 bits.
    TooLarge,
}

pub const KIB: u64 = 1024;

/// The byte that fills every payload.
pub const FILL_BYTE: u8 = 97;

pub open spec fn is_digit(c: char) -> bool {
    '0' <= c && c <= '9'
}

pub open spec fn digit_value(c: char) -> nat {
    (c as nat - '0' as nat) as nat
}

pub open spec fn all_digits(s: Seq<char>) -> bool {
    forall|i: int| 0 <= i < s.len() ==> is_digit(#[trigger] s[i])
}

/// The number written by the decimal digits `s`.
pub open spec fn digits_value(s: Seq<char>) -> nat
    decreases s.len(),
{
    if s.len() == 0 {
        0
    } else {
        digits_value(s.drop_last()) * 10 + digit_value(s.last())
    }
}

/// The multiplier that a two-letter unit stands for, or `None` for no unit.
pub open spec fn unit_multiplier(a: char, b: char) -> Option<nat> {
    if b == 'b' || b == 'B' {
        if a == 'k' || a == 'K' {
            Some(1024)
        } else if a == 'm' || a == 'M' {
            Some(1024 * 1024)
        } else if a == 'g' || a == 'G' {
            Some(1024 * 1024 * 1024)
        } else {
            None
        }
    } else {
        None
    }
}

/// The magnitude part of a size string and the multiplier of its unit.
pub open spec fn split_unit(s: Seq<char>) -> (Seq<char>, nat) {
    if s.len() >= 2 {
        match unit_multiplier(s[s.len() - 2], s[s.len() - 1]) {
            Some(m) => (s.subrange(0, s.len() - 2), m),
            None => (s, 1),
        }
    } else {
        (s, 1)
    }
}

/// The byte count that a size string denotes, or `None` when its magnitude
/// is not a non-empty run of decimal digits.
pub open spec fn size_spec(s: Seq<char>) -> Option<nat> {
    let (mag, mult) = split_unit(s);
    if mag.len() > 0 && all_digits(mag) {
        Some(digits_value(mag) * mult)
    } else {
        None
    }
}

/// A longer run of digits never denotes less than its prefix.
proof fn lemma_digits_prefix_monotone(s: Seq<char>, i: int)
    requires
        0 <= i <= s.len(),
    ensures
        digits_value(s.subrange(0, i)) <= digits_value(s),
    decreases s.len() - i,
{
    if i < s.len() {
        lemma_digits_prefix_monotone(s, i + 1);
        assert(s.subrange(0, i + 1).drop_last() == s.subrange(0, i));
    } else {
        assert(s.subrange(0, i) == s);
    }
}

/// Parses a size string such as `10MB`, `4kb` or `512` into a byte count.
pub fn parse_size(s: &str) -> (r: Result<u64, SizeError>)
    ensures
        size_spec(s@) is None <==> r == Err::<u64, SizeError>(SizeError::Invalid),
        size_spec(s@) is Some && size_spec(s@)->0 > u64::MAX <==> r == Err::<u64, SizeError>(SizeError::TooLarge),
        r is Ok ==> size_spec(s@) == Some(r->Ok_0 as nat),
{
    let n = s.unicode_len();
    let mut mag_len: usize = n;
    let mut mult: u64 = 1;
    if n >= 2 {
        let a = s.get_char(n - 2);
        let b = s.get_char(n - 1);
        if b == 'b' || b == 'B' {
            if a == 'k' || a == 'K' {
                mag_len = n - 2;
                mult = KIB;
            } else if a == 'm' || a == 'M' {
                mag_len = n - 2;
                mult = KIB * KIB;
            } else if a == 'g' || a == 'G' {
                mag_len = n - 2;
                mult = KIB * KIB * KIB;
            }
        }
    }
    let ghost mag = s@.subrange(0, mag_len as int);
    assert(split_unit(s@) == (mag, mult as nat));
    if mag_len == 0 {
        return Err(SizeError::Invalid);
    }
    assert(mult >= 1);
    let mut i: usize = 0;
    while i < mag_len
        invariant
            mag_len <= n == s@.len(),
            mag == s@.subrange(0, mag_len as int),
            split_unit(s@) == (mag, mult as nat),
            mag.len() > 0,
            i <= mag_len,
            forall|j: int| 0 <= j < i ==> is_digit(#[trigger] mag[j]),
        decreases mag_len - i,
    {
        let c = s.get_char(i);
        if !('0' <= c && c <= '9') {
            assert(mag[i as int] == c);
            assert(!is_digit(mag[i as int]));
            return Err(SizeError::Invalid);
        }
        i = i + 1;
    }
    let mut value: u64 = 0;
    let mut k: usize = 0;
    while k < mag_len
        invariant
            mag_len <= n == s@.len(),
            mag == s@.subrange(0, mag_len as int),
            split_unit(s@) == (mag, mult as nat),
            mag.len() > 0,
            mult >= 1,
            all_digits(mag),
            k <= mag_len,
            value as nat == digits_value(mag.subrange(0, k as int)),
        decreases mag_len - k,
    {
        let c = s.get_char(k);
        assert(mag[k as int] == c);
        let d: u64 = (c as u32 - '0' as u32) as u64;
        assert(mag.subrange(0, k + 1).drop_last() == mag.subrange(0, k as int));
        if value > (u64::MAX - d) / 10 {
            proof {
                lemma_digits_prefix_monotone(mag, k + 1);
                assert(digits_value(mag.subrange(0, k + 1)) > u64::MAX);
                assert(mag.subrange(0, mag_len as int) == mag);
                assert(digits_value(mag) * mult as nat >= digits_value(mag)) by (nonlinear_arith)
                    requires mult >= 1;
            }
            return Err(SizeError::TooLarge);
        }
        value = value * 10 + d;
        k = k + 1;
    }
    assert(mag.subrange(0, mag_len as int) == mag);
    match value.checked_mul(mult) {
        Some(v) => Ok(v),
        None => Err(SizeError::TooLarge),
    }
}

/// A payload of `size` bytes, each of them `FILL_BYTE` (`b'a'`); only its length matters.
pub fn create_bin_data(size: usize) -> (data: Vec<u8>)
    ensures
        data@.len() == size,
        forall|i: int| 0 <= i < size ==> data@[i] == FILL_BYTE,
{
    let mut data: Vec<u8> = Vec::new();
    let mut i: usize = 0;
    while i < size
        invariant
            i <= size,
            data@.len() == i,
            forall|j: int| 0 <= j < i ==> data@[j] == FILL_BYTE,
        decreases size - i,
    {
        data.push(FILL_BYTE);
        i = i + 1;
    }
    data
}

} // verus!
