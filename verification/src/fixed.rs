use vstd::prelude::*;

verus! {

/// Number of fixed-point units in 1.0 of a money amount or a stock
/// fraction: six decimal places.
pub const SCALE: i64 = 1_000_000;

/// Number of fixed-point units in 1.0 of a return or inflation multiplier:
/// nine decimal places, so that a year's multiplier is fine enough not to
/// disturb a portfolio in the thousands by more than a millionth.
pub const FACTOR_SCALE: i64 = 1_000_000_000;

/// Saturation bound of every fixed-point operation, well above the sanity
/// ceiling of the scans, so that saturation can only occur on values that the
/// scans already report as a numerical blow-up.
pub const CAP: i64 = 2_000_000_000_000_000_000;

/// A value the fixed-point operations can produce or consume.
pub open spec fn in_band(x: int) -> bool {
    -(CAP as int) <= x <= CAP as int
}

/// Saturate an unbounded intermediate result into the representable band.
pub open spec fn clamp(x: int) -> int {
    if x > CAP as int {
        CAP as int
    } else if x < -(CAP as int) {
        -(CAP as int)
    } else {
        x
    }
}

/// Round-toward-zero division: the quotient of the magnitudes, with the sign
/// of the exact quotient.  This is the division the executable code performs.
pub open spec fn div_trunc(a: int, b: int) -> int
    recommends
        b != 0,
{
    let m = (if a >= 0 { a } else { -a }) / (if b > 0 { b } else { -b });
    if (a >= 0) == (b > 0) {
        m
    } else {
        -m
    }
}

/// Fixed-point addition with saturation.
pub open spec fn fx_add(a: int, b: int) -> int {
    clamp(a + b)
}

/// Fixed-point subtraction with saturation.
pub open spec fn fx_sub(a: int, b: int) -> int {
    clamp(a - b)
}

/// Fixed-point multiplication at the scale `d` (the number of units in 1.0
/// of `b`): exact product, rescaled by truncating division, saturated.
pub open spec fn fx_mul(a: int, b: int, d: int) -> int {
    clamp(div_trunc(a * b, d))
}

/// Fixed-point division at the scale `d` (the number of units in 1.0 of
/// `b`), total by convention: a zero divisor yields zero.
pub open spec fn fx_div(a: int, b: int, d: int) -> int {
    if b == 0 {
        0
    } else {
        clamp(div_trunc(a * d, b))
    }
}

/// Saturate a wide intermediate value back into an `i64` in the band.
pub(crate) fn clamp_wide(x: i128) -> (r: i64)
    ensures
        r as int == clamp(x as int),
        in_band(r as int),
{
    if x > CAP as i128 {
        CAP
    } else if x < -(CAP as i128) {
        -CAP
    } else {
        x as i64
    }
}

/// Executable fixed-point addition.
pub fn add_fx(a: i64, b: i64) -> (r: i64)
    requires
        in_band(a as int),
        in_band(b as int),
    ensures
        r as int == fx_add(a as int, b as int),
        in_band(r as int),
{
    clamp_wide(a as i128 + b as i128)
}

/// Executable fixed-point subtraction.
pub fn sub_fx(a: i64, b: i64) -> (r: i64)
    requires
        in_band(a as int),
        in_band(b as int),
    ensures
        r as int == fx_sub(a as int, b as int),
        in_band(r as int),
{
    clamp_wide(a as i128 - b as i128)
}

/// Executable fixed-point multiplication at scale `d`.
pub fn mul_fx(a: i64, b: i64, d: i64) -> (r: i64)
    requires
        in_band(a as int),
        in_band(b as int),
        0 < d,
    ensures
        r as int == fx_mul(a as int, b as int, d as int),
        in_band(r as int),
{
    proof {
        assert((a as int) * (b as int) <= (CAP as int) * (CAP as int) && (a as int) * (b as int)
            >= -((CAP as int) * (CAP as int))) by (nonlinear_arith)
            requires
                -(CAP as int) <= a as int <= CAP as int,
                -(CAP as int) <= b as int <= CAP as int,
        ;
    }
    let p: i128 = (a as i128) * (b as i128);
    let q: i128 = p / (d as i128);
    assert(q == div_trunc(a as int * b as int, d as int));
    clamp_wide(q)
}

/// Executable fixed-point division at scale `d`.
pub fn div_fx(a: i64, b: i64, d: i64) -> (r: i64)
    requires
        in_band(a as int),
        in_band(b as int),
        0 < d <= FACTOR_SCALE,
    ensures
        r as int == fx_div(a as int, b as int, d as int),
        in_band(r as int),
{
    if b == 0 {
        0
    } else {
        proof {
            assert((a as int) * (d as int) <= (CAP as int) * (FACTOR_SCALE as int) && (a as int)
                * (d as int) >= -((CAP as int) * (FACTOR_SCALE as int))) by (nonlinear_arith)
                requires
                    -(CAP as int) <= a as int <= CAP as int,
                    0 < d as int <= FACTOR_SCALE as int,
            ;
        }
        let n: i128 = (a as i128) * (d as i128);
        let q: i128 = if b > 0 {
            n / (b as i128)
        } else {
            -(n / (-(b as i128)))
        };
        assert(q == div_trunc(a as int * d, b as int));
        clamp_wide(q)
    }
}

} // verus!
