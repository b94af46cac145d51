//! Integers as Rust's `FromStr` reads them from a value's trimmed text:
//! an optional sign and decimal digits, or (for a handle) hexadecimal
//! digits.

use vstd::prelude::*;
use crate::text::{trim, trimmed};

verus! {

/// The value of the digit `b` in base `radix` (10 or 16), if it is one.
pub open spec fn digit(b: u8, radix: int) -> Option<int> {
    if 48 <= b <= 57 {
        Some(b - 48)
    } else if radix == 16 && 65 <= b <= 70 {
        Some(b - 55)
    } else if radix == 16 && 97 <= b <= 102 {
        Some(b - 87)
    } else {
        None
    }
}

pub open spec fn all_digits(b: Seq<u8>, radix: int) -> bool {
    forall|i: int| 0 <= i < b.len() ==> (#[trigger] digit(b[i], radix)) is Some
}

/// The value of a run of digits in base `radix`.
pub open spec fn digits_value(b: Seq<u8>, radix: int) -> int
    decreases b.len(),
{
    if b.len() == 0 {
        0
    } else {
        digits_value(b.drop_last(), radix) * radix + digit(b.last(), radix).unwrap()
    }
}

/// The integer an optional `+` or `-` followed by at least one decimal
/// digit writes, or `None` for any other text: what `FromStr` for a signed
/// integer accepts, before it checks the type's range.
pub open spec fn signed_decimal(b: Seq<u8>) -> Option<int> {
    if b.len() > 0 && (b[0] == 45 || b[0] == 43) {
        let d = b.drop_first();
        if d.len() > 0 && all_digits(d, 10) {
            Some(if b[0] == 45 { -digits_value(d, 10) } else { digits_value(d, 10) })
        } else {
            None
        }
    } else if b.len() > 0 && all_digits(b, 10) {
        Some(digits_value(b, 10))
    } else {
        None
    }
}

/// What `FromStr` for an integer type whose range is `lo..=hi` reads from
/// the bytes `b`.
pub open spec fn int_in_range(b: Seq<u8>, lo: int, hi: int) -> Option<int> {
    match signed_decimal(b) {
        Some(v) => if lo <= v <= hi {
            Some(v)
        } else {
            None
        },
        None => None,
    }
}

/// The integer a value's text reads as, trimmed first, for a type whose
/// range is `lo..=hi`: `value.trim().parse()`.
pub open spec fn int_value(s: Seq<char>, lo: int, hi: int) -> Option<int> {
    int_in_range(vstd::utf8::encode_utf8(trimmed(s)), lo, hi)
}

/// What `u64::from_str_radix(_, 16)` reads from the bytes `b`: an optional
/// `+`, then at least one hexadecimal digit of either case, the value no
/// greater than `u64::MAX`.
pub open spec fn hex_u64(b: Seq<u8>) -> Option<int> {
    let d = if b.len() > 0 && b[0] == 43 {
        b.drop_first()
    } else {
        b
    };
    if d.len() > 0 && all_digits(d, 16) && digits_value(d, 16) <= u64::MAX {
        Some(digits_value(d, 16))
    } else {
        None
    }
}

pub(crate) proof fn lemma_digits_value_nonneg(b: Seq<u8>, radix: int)
    requires
        all_digits(b, radix),
        radix == 10 || radix == 16,
    ensures
        digits_value(b, radix) >= 0,
    decreases b.len(),
{
    if b.len() > 0 {
        lemma_digits_value_nonneg(b.drop_last(), radix);
        assert(digit(b[b.len() - 1], radix) is Some);
        assert(digits_value(b.drop_last(), radix) * radix >= 0) by (nonlinear_arith)
            requires
                digits_value(b.drop_last(), radix) >= 0,
                radix >= 0,
        ;
    }
}

/// Appending digits never makes the value smaller.
proof fn lemma_digits_value_grows(b: Seq<u8>, k: int, radix: int)
    requires
        all_digits(b, radix),
        radix == 10 || radix == 16,
        0 <= k <= b.len(),
    ensures
        digits_value(b.subrange(0, k), radix) <= digits_value(b, radix),
    decreases b.len() - k,
{
    if k < b.len() {
        lemma_digits_value_grows(b, k + 1, radix);
        let p = b.subrange(0, k + 1);
        assert(p.drop_last() =~= b.subrange(0, k));
        lemma_digits_value_nonneg(b.subrange(0, k), radix);
        assert(digit(b[k], radix) is Some);
        assert(p.last() == b[k]);
        let q = digits_value(b.subrange(0, k), radix);
        assert(q * radix >= q) by (nonlinear_arith)
            requires
                q >= 0,
                radix >= 1,
        ;
    } else {
        assert(b.subrange(0, k) =~= b);
    }
}

/// The digit `c` in base `radix`.
fn digit_exec(c: u8, radix: u64) -> (r: Option<u64>)
    requires
        radix == 10 || radix == 16,
    ensures
        match digit(c, radix as int) {
            Some(v) => r == Some(v as u64) && v < radix,
            None => r is None,
        },
{
    if 48 <= c && c <= 57 {
        Some((c - 48) as u64)
    } else if radix == 16 && 65 <= c && c <= 70 {
        Some((c - 55) as u64)
    } else if radix == 16 && 97 <= c && c <= 102 {
        Some((c - 87) as u64)
    } else {
        None
    }
}

/// Reads the digits `b[start..]` in base `radix` as a magnitude no greater
/// than `limit`; `None` when they are not all digits, there are none, or
/// the magnitude exceeds `limit`.
fn magnitude(b: &[u8], start: usize, radix: u64, limit: u64) -> (r: Option<u64>)
    requires
        start <= b.len(),
        radix == 10 || radix == 16,
        limit >= 15,
    ensures
        ({
            let d = b@.subrange(start as int, b@.len() as int);
            match r {
                Some(m) => d.len() > 0 && all_digits(d, radix as int) && m == digits_value(
                    d,
                    radix as int,
                ) && m <= limit,
                None => !(d.len() > 0 && all_digits(d, radix as int) && digits_value(
                    d,
                    radix as int,
                ) <= limit),
            }
        }),
{
    let ghost d = b@.subrange(start as int, b@.len() as int);
    let ghost rd = radix as int;
    if start == b.len() {
        return None;
    }
    let mut m: u64 = 0;
    let mut i: usize = start;
    while i < b.len()
        invariant
            start <= i <= b.len(),
            radix == 10 || radix == 16,
            rd == radix as int,
            limit >= 15,
            d == b@.subrange(start as int, b@.len() as int),
            all_digits(d.subrange(0, i - start), rd),
            m == digits_value(d.subrange(0, i - start), rd),
            m <= limit,
        decreases b.len() - i,
    {
        let v = match digit_exec(b[i], radix) {
            Some(v) => v,
            None => {
                assert(digit(d[i - start], rd) is None);
                return None;
            },
        };
        let ghost p = d.subrange(0, i - start + 1);
        assert(p.drop_last() =~= d.subrange(0, i - start));
        assert(p.last() == d[i - start]);
        assert(all_digits(p, rd)) by {
            assert forall|j: int| 0 <= j < p.len() implies (#[trigger] digit(p[j], rd)) is Some by {
                if j < p.len() - 1 {
                    assert(p[j] == d.subrange(0, i - start)[j]);
                }
            }
        }
        assert(digits_value(p, rd) == m * radix + v);
        if m > (limit - v) / radix {
            proof {
                assert(m * radix + v > limit) by (nonlinear_arith)
                    requires
                        m > (limit - v) as int / (radix as int),
                        v <= limit,
                        radix > 0,
                ;
                if all_digits(d, rd) {
                    lemma_digits_value_grows(d, i - start + 1, rd);
                }
            }
            return None;
        }
        proof {
            assert(m * radix + v <= limit) by (nonlinear_arith)
                requires
                    m <= (limit - v) as int / (radix as int),
                    v <= limit,
                    radix > 0,
            ;
        }
        m = m * radix + v;
        i = i + 1;
    }
    assert(d.subrange(0, i - start) =~= d);
    Some(m)
}

/// What `FromStr` for an integer type whose range is `lo..=hi` reads from
/// the bytes `b`.
pub fn parse_int(b: &[u8], lo: i64, hi: i64) -> (r: Option<i64>)
    requires
        lo <= -15,
        hi >= 15,
    ensures
        match int_in_range(b@, lo as int, hi as int) {
            Some(v) => r == Some(v as i64),
            None => r is None,
        },
{
    if b.len() == 0 {
        return None;
    }
    let negative = b[0] == 45;
    let start: usize = if b[0] == 45 || b[0] == 43 { 1 } else { 0 };
    // The largest magnitude the sign allows: |lo| for a minus sign.
    let limit: u64 = if negative {
        (-(lo as i128)) as u64
    } else {
        hi as u64
    };
    let m = magnitude(b, start, 10, limit);
    proof {
        if start == 1 {
            assert(b@.drop_first() =~= b@.subrange(1, b@.len() as int));
        } else {
            assert(b@ =~= b@.subrange(0, b@.len() as int));
        }
    }
    match m {
        Some(m) => {
            proof {
                lemma_digits_value_nonneg(b@.subrange(start as int, b@.len() as int), 10);
            }
            if negative {
                Some(-(m as i128) as i64)
            } else {
                Some(m as i64)
            }
        },
        None => {
            proof {
                let d = b@.subrange(start as int, b@.len() as int);
                if d.len() > 0 && all_digits(d, 10) {
                    lemma_digits_value_nonneg(d, 10);
                }
            }
            None
        },
    }
}

/// `value.trim().parse()` for an integer type whose range is `lo..=hi`.
pub fn int_of(value: &str, lo: i64, hi: i64) -> (r: Option<i64>)
    requires
        lo <= -15,
        hi >= 15,
    ensures
        match int_value(value@, lo as int, hi as int) {
            Some(v) => r == Some(v as i64),
            None => r is None,
        },
{
    parse_int(trim(value).as_bytes(), lo, hi)
}

/// `u64::from_str_radix(text, 16)`.
pub fn parse_hex(b: &[u8]) -> (r: Option<u64>)
    ensures
        match hex_u64(b@) {
            Some(v) => r == Some(v as u64),
            None => r is None,
        },
        hex_u64(b@) matches Some(v) ==> 0 <= v,
{
    let start: usize = if b.len() > 0 && b[0] == 43 { 1 } else { 0 };
    proof {
        if start == 1 {
            assert(b@.drop_first() =~= b@.subrange(1, b@.len() as int));
        } else {
            assert(b@ =~= b@.subrange(0, b@.len() as int));
        }
        let d = b@.subrange(start as int, b@.len() as int);
        if d.len() > 0 && all_digits(d, 16) {
            lemma_digits_value_nonneg(d, 16);
        }
    }
    match magnitude(b, start, 16, u64::MAX) {
        Some(m) => Some(m),
        None => None,
    }
}


} // verus!
