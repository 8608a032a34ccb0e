//! Ordering of IEEE 754 values carried as their raw bit patterns.
//!
//! Scores and thresholds travel through the library as the bit patterns of
//! binary64 values (and volumes as binary32 patterns), so that every
//! comparison the policy logic makes is exact and stated over integers.
use vstd::prelude::*;

verus! {

/// Bit pattern of binary64 `+0.0`.
pub const BINARY64_ZERO: u64 = 0x0000_0000_0000_0000u64;

/// Bit pattern of binary64 `1.0`.
pub const BINARY64_ONE: u64 = 0x3FF0_0000_0000_0000u64;

/// Bit pattern of binary64 `0.25`.
pub const BINARY64_QUARTER: u64 = 0x3FD0_0000_0000_0000u64;

/// Sign bit of a binary64 pattern.
pub const BINARY64_SIGN: u64 = 0x8000_0000_0000_0000u64;

/// Pattern of binary64 positive infinity; larger magnitudes are NaN.
pub const BINARY64_INF: u64 = 0x7FF0_0000_0000_0000u64;

/// Sign bit of a binary32 pattern.
pub const BINARY32_SIGN: u32 = 0x8000_0000u32;

/// Pattern of binary32 positive infinity; larger magnitudes are NaN.
pub const BINARY32_INF: u32 = 0x7F80_0000u32;

/// The magnitude part (all bits but the sign) of a binary64 pattern.
pub open spec fn binary64_magnitude(b: u64) -> int {
    if b < BINARY64_SIGN { b as int } else { b - BINARY64_SIGN }
}

/// A binary64 pattern is NaN when its magnitude exceeds that of infinity.
pub open spec fn binary64_is_nan(b: u64) -> bool {
    binary64_magnitude(b) > BINARY64_INF
}

/// The position of a non-NaN binary64 value on the number line, as an integer
/// that orders exactly as the values do (both zeros map to 0).
pub open spec fn binary64_rank(b: u64) -> int {
    if b < BINARY64_SIGN { b as int } else { -binary64_magnitude(b) }
}

/// IEEE `a < b`: false whenever either operand is NaN.
pub open spec fn binary64_lt(a: u64, b: u64) -> bool {
    !binary64_is_nan(a) && !binary64_is_nan(b) && binary64_rank(a) < binary64_rank(b)
}

/// IEEE `a <= b`: false whenever either operand is NaN.
pub open spec fn binary64_le(a: u64, b: u64) -> bool {
    !binary64_is_nan(a) && !binary64_is_nan(b) && binary64_rank(a) <= binary64_rank(b)
}

/// The magnitude part of a binary32 pattern.
pub open spec fn binary32_magnitude(b: u32) -> int {
    if b < BINARY32_SIGN { b as int } else { b - BINARY32_SIGN }
}

/// A binary32 pattern is NaN when its magnitude exceeds that of infinity.
pub open spec fn binary32_is_nan(b: u32) -> bool {
    binary32_magnitude(b) > BINARY32_INF
}

/// The position of a non-NaN binary32 value on the number line.
pub open spec fn binary32_rank(b: u32) -> int {
    if b < BINARY32_SIGN { b as int } else { -binary32_magnitude(b) }
}

/// IEEE `a == b` on binary32 values: NaN equals nothing, and `-0.0 == +0.0`.
pub open spec fn binary32_eq(a: u32, b: u32) -> bool {
    !binary32_is_nan(a) && !binary32_is_nan(b) && binary32_rank(a) == binary32_rank(b)
}

fn magnitude64(b: u64) -> (m: u64)
    ensures
        m as int == binary64_magnitude(b),
{
    if b < BINARY64_SIGN { b } else { b - BINARY64_SIGN }
}

/// Computes IEEE `a < b` for two binary64 patterns.
pub fn binary64_less(a: u64, b: u64) -> (r: bool)
    ensures
        r == binary64_lt(a, b),
{
    let ma = magnitude64(a);
    let mb = magnitude64(b);
    if ma > BINARY64_INF || mb > BINARY64_INF {
        return false;
    }
    let a_neg = a >= BINARY64_SIGN;
    let b_neg = b >= BINARY64_SIGN;
    if !a_neg && !b_neg {
        ma < mb
    } else if a_neg && b_neg {
        mb < ma
    } else if a_neg {
        // -ma < mb unless both are zero
        ma > 0 || mb > 0
    } else {
        // ma < -mb never holds
        false
    }
}

/// Computes IEEE `a <= b` for two binary64 patterns.
pub fn binary64_less_eq(a: u64, b: u64) -> (r: bool)
    ensures
        r == binary64_le(a, b),
{
    let ma = magnitude64(a);
    let mb = magnitude64(b);
    if ma > BINARY64_INF || mb > BINARY64_INF {
        return false;
    }
    let a_neg = a >= BINARY64_SIGN;
    let b_neg = b >= BINARY64_SIGN;
    if !a_neg && !b_neg {
        ma <= mb
    } else if a_neg && b_neg {
        mb <= ma
    } else if a_neg {
        true
    } else {
        ma == 0 && mb == 0
    }
}

/// Computes IEEE `a == b` for two binary32 patterns.
pub fn binary32_equal(a: u32, b: u32) -> (r: bool)
    ensures
        r == binary32_eq(a, b),
{
    let ma: u32 = if a < BINARY32_SIGN { a } else { a - BINARY32_SIGN };
    let mb: u32 = if b < BINARY32_SIGN { b } else { b - BINARY32_SIGN };
    if ma > BINARY32_INF || mb > BINARY32_INF {
        return false;
    }
    if ma == 0 && mb == 0 {
        return true;
    }
    a == b
}

/// IEEE ordering of binary64 patterns, written out on the bits: a NaN
/// (magnitude above infinity's) compares with nothing; non-negative patterns
/// order as integers; negative ones (sign bit set) in reverse; every negative
/// value is below every non-negative one, except that `-0.0` and `+0.0` are
/// equal.
pub proof fn law_binary64_order_on_bits(a: u64, b: u64)
    ensures
        ((a < BINARY64_SIGN && a > BINARY64_INF) || (a >= BINARY64_SIGN && a - BINARY64_SIGN
            > BINARY64_INF) || (b < BINARY64_SIGN && b > BINARY64_INF) || (b >= BINARY64_SIGN
            && b - BINARY64_SIGN > BINARY64_INF)) ==> !binary64_le(a, b) && !binary64_lt(a, b),
        a <= BINARY64_INF && b <= BINARY64_INF ==> (binary64_le(a, b) <==> a <= b) && (
        binary64_lt(a, b) <==> a < b),
        BINARY64_SIGN <= a <= BINARY64_SIGN + BINARY64_INF && BINARY64_SIGN <= b
            <= BINARY64_SIGN + BINARY64_INF ==> (binary64_le(a, b) <==> a >= b) && (binary64_lt(
            a,
            b,
        ) <==> a > b),
        BINARY64_SIGN <= a <= BINARY64_SIGN + BINARY64_INF && b <= BINARY64_INF ==> binary64_le(
            a,
            b,
        ) && (binary64_lt(a, b) <==> !(a == BINARY64_SIGN && b == 0)),
        a <= BINARY64_INF && BINARY64_SIGN <= b <= BINARY64_SIGN + BINARY64_INF ==> (binary64_le(
            a,
            b,
        ) <==> (a == 0 && b == BINARY64_SIGN)) && !binary64_lt(a, b),
{
}

/// IEEE equality of binary32 patterns, written out on the bits: a NaN equals
/// nothing; otherwise two patterns are equal exactly when they are the same
/// or are `+0.0` and `-0.0`.
pub proof fn law_binary32_equality_on_bits(a: u32, b: u32)
    ensures
        ((a < BINARY32_SIGN && a > BINARY32_INF) || (a >= BINARY32_SIGN && a - BINARY32_SIGN
            > BINARY32_INF) || (b < BINARY32_SIGN && b > BINARY32_INF) || (b >= BINARY32_SIGN
            && b - BINARY32_SIGN > BINARY32_INF)) ==> !binary32_eq(a, b),
        !((a < BINARY32_SIGN && a > BINARY32_INF) || (a >= BINARY32_SIGN && a - BINARY32_SIGN
            > BINARY32_INF) || (b < BINARY32_SIGN && b > BINARY32_INF) || (b >= BINARY32_SIGN
            && b - BINARY32_SIGN > BINARY32_INF)) ==> (binary32_eq(a, b) <==> (a == b || (a == 0
            && b == BINARY32_SIGN) || (a == BINARY32_SIGN && b == 0))),
{
}

} // verus!
