//! Reading integers from text, as `str::parse` and `from_str_radix` do.

use vstd::prelude::*;

verus! {

/// The value of `c` as a digit in base `radix` (2 to 36), as
/// `char::to_digit` gives it.
pub open spec fn digit_value(c: char, radix: nat) -> Option<nat> {
    let u = c as u32;
    let d: int = if 0x30 <= u && u <= 0x39 {
        u - 0x30
    } else if 0x61 <= u && u <= 0x7A {
        u - 0x61 + 10
    } else if 0x41 <= u && u <= 0x5A {
        u - 0x41 + 10
    } else {
        36
    };
    if d < radix {
        Some(d as nat)
    } else {
        None
    }
}

/// Every character of `v` is a digit in base `radix`.
pub open spec fn all_digits(v: Seq<char>, radix: nat) -> bool {
    forall|i: int| 0 <= i < v.len() ==> #[trigger] digit_value(v[i], radix) is Some
}

/// The number that the digits `v` denote in base `radix`.
pub open spec fn digits_value(v: Seq<char>, radix: nat) -> nat
    decreases v.len(),
{
    if v.len() == 0 {
        0
    } else {
        digits_value(v.drop_last(), radix) * radix + match digit_value(v.last(), radix) {
            Some(d) => d,
            None => 0,
        }
    }
}

/// `from_str_radix` for `i64` on a text of digits without a sign: `None`
/// for an empty text, a character that is no digit, or a value above
/// `i64::MAX`.
pub open spec fn parse_unsigned(v: Seq<char>, radix: nat) -> Option<i64> {
    if v.len() == 0 || !all_digits(v, radix) || digits_value(v, radix) > i64::MAX {
        None
    } else {
        Some(digits_value(v, radix) as i64)
    }
}

/// `str::parse::<i32>`: an optional `+` or `-`, then at least one decimal
/// digit, within the range of `i32`.
pub open spec fn parse_i32(v: Seq<char>) -> Option<i32> {
    if v.len() == 0 {
        None
    } else {
        let signed = v[0] == '+' || v[0] == '-';
        let digits = if signed {
            v.drop_first()
        } else {
            v
        };
        let magnitude = digits_value(digits, 10);
        let value: int = if v[0] == '-' {
            -magnitude
        } else {
            magnitude as int
        };
        if digits.len() == 0 || !all_digits(digits, 10) || value < i32::MIN || value > i32::MAX {
            None
        } else {
            Some(value as i32)
        }
    }
}

fn char_digit(c: char, radix: u32) -> (r: Option<u32>)
    requires
        2 <= radix <= 36,
    ensures
        match r {
            Some(d) => digit_value(c, radix as nat) == Some(d as nat) && d < radix,
            None => digit_value(c, radix as nat) is None,
        },
{
    let u = c as u32;
    let d: u32 = if 0x30 <= u && u <= 0x39 {
        u - 0x30
    } else if 0x61 <= u && u <= 0x7A {
        u - 0x61 + 10
    } else if 0x41 <= u && u <= 0x5A {
        u - 0x41 + 10
    } else {
        36
    };
    if d < radix {
        Some(d)
    } else {
        None
    }
}

/// Reads `v[from..]` as digits in base `radix`. `None` when a character is
/// no digit; otherwise the value, or `limit + 1` when the value exceeds
/// `limit`.
pub fn scan_digits(v: &Vec<char>, from: usize, radix: u32, limit: i128) -> (r: Option<i128>)
    requires
        2 <= radix <= 36,
        from <= v.len(),
        0 <= limit <= u64::MAX,
    ensures
        match r {
            None => !all_digits(v@.subrange(from as int, v.len() as int), radix as nat),
            Some(x) => {
                let digits = v@.subrange(from as int, v.len() as int);
                &&& all_digits(digits, radix as nat)
                &&& if digits_value(digits, radix as nat) <= limit {
                    x == digits_value(digits, radix as nat)
                } else {
                    x == limit + 1
                }
            },
        },
{
    let mut acc: i128 = 0;
    let mut too_big = false;
    let mut i = from;
    while i < v.len()
        invariant
            2 <= radix <= 36,
            from <= i <= v.len(),
            0 <= limit <= u64::MAX,
            all_digits(v@.subrange(from as int, i as int), radix as nat),
            too_big ==> digits_value(v@.subrange(from as int, i as int), radix as nat) > limit,
            !too_big ==> acc == digits_value(v@.subrange(from as int, i as int), radix as nat),
            !too_big ==> acc <= limit,
        decreases v.len() - i,
    {
        let ghost prefix = v@.subrange(from as int, i as int);
        let ghost next = v@.subrange(from as int, i + 1);
        assert(next.drop_last() =~= prefix);
        assert(next.last() == v@[i as int]);
        match char_digit(v[i], radix) {
            None => {
                assert(!all_digits(v@.subrange(from as int, v.len() as int), radix as nat)) by {
                    assert(v@.subrange(from as int, v.len() as int)[i - from] == v@[i as int]);
                }
                return None;
            },
            Some(d) => {
                let ghost pv = digits_value(prefix, radix as nat);
                assert(digits_value(next, radix as nat) == pv * radix + d);
                if too_big {
                    assert(pv * radix + d > limit) by (nonlinear_arith)
                        requires
                            pv > limit,
                            radix >= 2,
                            d >= 0,
                            limit >= 0,
                    ;
                } else {
                    assert(0 <= acc * (radix as i128) <= u64::MAX * 36) by (nonlinear_arith)
                        requires
                            0 <= acc <= u64::MAX,
                            2 <= radix <= 36,
                    ;
                    let big = acc * (radix as i128) + (d as i128);
                    if big > limit {
                        too_big = true;
                    } else {
                        acc = big;
                    }
                }
                assert forall|k: int| 0 <= k < next.len() implies #[trigger] digit_value(
                    next[k],
                    radix as nat,
                ) is Some by {
                    if k < prefix.len() {
                        assert(next[k] == prefix[k]);
                    }
                }
            },
        }
        i = i + 1;
    }
    if too_big {
        Some(limit + 1)
    } else {
        Some(acc)
    }
}

/// `from_str_radix(text, radix)` for `i64`, on digits without a sign.
pub fn parse_unsigned_radix(v: &Vec<char>, radix: u32) -> (r: Option<i64>)
    requires
        2 <= radix <= 36,
    ensures
        r == parse_unsigned(v@, radix as nat),
{
    assert(v@.subrange(0, v.len() as int) =~= v@);
    if v.len() == 0 {
        return None;
    }
    match scan_digits(v, 0, radix, i64::MAX as i128) {
        None => None,
        Some(x) => {
            if x > i64::MAX as i128 {
                None
            } else {
                Some(x as i64)
            }
        },
    }
}

/// `str::parse::<i32>`.
pub fn parse_i32_text(v: &Vec<char>) -> (r: Option<i32>)
    ensures
        r == parse_i32(v@),
{
    if v.len() == 0 {
        return None;
    }
    let negative = v[0] == '-';
    let signed = v[0] == '+' || negative;
    let from: usize = if signed {
        1
    } else {
        0
    };
    let ghost digits = if signed {
        v@.drop_first()
    } else {
        v@
    };
    assert(v@.subrange(from as int, v.len() as int) =~= digits);
    if from == v.len() {
        return None;
    }
    let limit: i128 = if negative {
        0x8000_0000
    } else {
        0x7fff_ffff
    };
    match scan_digits(v, from, 10, limit) {
        None => None,
        Some(x) => {
            if x > limit {
                None
            } else if negative {
                Some((0 - x) as i32)
            } else {
                Some(x as i32)
            }
        },
    }
}

/// `str::parse::<u64>`: an optional `+`, then at least one decimal digit,
/// within the range of `u64`.
pub open spec fn parse_u64(v: Seq<char>) -> Option<u64> {
    let digits = if v.len() > 0 && v[0] == '+' {
        v.drop_first()
    } else {
        v
    };
    if digits.len() == 0 || !all_digits(digits, 10) || digits_value(digits, 10) > u64::MAX {
        None
    } else {
        Some(digits_value(digits, 10) as u64)
    }
}

/// `str::parse::<u64>`.
pub fn parse_u64_text(v: &Vec<char>) -> (r: Option<u64>)
    ensures
        r == parse_u64(v@),
{
    let from: usize = if v.len() > 0 && v[0] == '+' {
        1
    } else {
        0
    };
    let ghost digits = if v@.len() > 0 && v@[0] == '+' {
        v@.drop_first()
    } else {
        v@
    };
    assert(v@.subrange(from as int, v.len() as int) =~= digits);
    if from == v.len() {
        return None;
    }
    match scan_digits(v, from, 10, 0xffff_ffff_ffff_ffff) {
        None => None,
        Some(x) => {
            if x > 0xffff_ffff_ffff_ffff {
                None
            } else {
                Some(x as u64)
            }
        },
    }
}

/// `str::parse::<u32>`.
pub fn parse_u32_text(v: &Vec<char>) -> (r: Option<u32>)
    ensures
        r == crate::type_shape::parse_u32(v@),
{
    let from: usize = if v.len() > 0 && v[0] == '+' {
        1
    } else {
        0
    };
    let ghost digits = if v@.len() > 0 && v@[0] == '+' {
        v@.drop_first()
    } else {
        v@
    };
    assert(v@.subrange(from as int, v.len() as int) =~= digits);
    if from == v.len() {
        return None;
    }
    match scan_digits(v, from, 10, 0xffff_ffff) {
        None => None,
        Some(x) => {
            if x > 0xffff_ffff {
                None
            } else {
                Some(x as u32)
            }
        },
    }
}

} // verus!
