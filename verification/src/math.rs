use muldiv::MulDiv;
use vstd::prelude::*;

verus! {

/// `val * num / denom` rounded down, or `None` where that quotient is no
/// 64-bit amount.
pub open spec fn mul_div_floor_spec(val: u64, num: u64, denom: u64) -> Option<u64>
    recommends
        denom != 0,
{
    let q = (val as int * num as int) / (denom as int);
    if q <= u64::MAX {
        Some(q as u64)
    } else {
        None
    }
}

/// `val * num / denom` rounded up, or `None` where that quotient is no
/// 64-bit amount.
pub open spec fn mul_div_ceil_spec(val: u64, num: u64, denom: u64) -> Option<u64>
    recommends
        denom != 0,
{
    let q = (val as int * num as int + (denom as int - 1)) / (denom as int);
    if q <= u64::MAX {
        Some(q as u64)
    } else {
        None
    }
}

/// Calls `muldiv::MulDiv::mul_div_floor` on `u64`. That method multiplies in
/// 128 bits, divides, and gives `None` exactly where the quotient exceeds
/// `u64::MAX`; it panics on a zero denominator, which `requires` leaves out.
#[verifier::external_body]
pub(crate) fn mul_div_floor(val: u64, num: u64, denom: u64) -> (r: Option<u64>)
    requires
        denom != 0,
    ensures
        r == mul_div_floor_spec(val, num, denom),
{
    val.mul_div_floor(num, denom)
}

/// Calls `muldiv::MulDiv::mul_div_ceil` on `u64`. That method multiplies in
/// 128 bits, adds `denom - 1`, divides, and gives `None` exactly where the
/// quotient exceeds `u64::MAX`; it panics on a zero denominator, which
/// `requires` leaves out.
#[verifier::external_body]
pub(crate) fn mul_div_ceil(val: u64, num: u64, denom: u64) -> (r: Option<u64>)
    requires
        denom != 0,
    ensures
        r == mul_div_ceil_spec(val, num, denom),
{
    val.mul_div_ceil(num, denom)
}

/// Rounded down, the quotient is the greatest amount whose product with the
/// denominator does not exceed the product of the two factors.
pub proof fn lemma_mul_div_floor_is_greatest(val: u64, num: u64, denom: u64)
    requires
        denom != 0,
        mul_div_floor_spec(val, num, denom).is_some(),
    ensures
        ({
            let r = mul_div_floor_spec(val, num, denom).unwrap();
            r * denom <= val * num < (r + 1) * denom
        }),
{
    let p = val as int * num as int;
    let d = denom as int;
    assert((p / d) * d <= p < (p / d + 1) * d) by (nonlinear_arith)
        requires
            d > 0,
    ;
}

/// Rounded up, the quotient is the least amount whose product with the
/// denominator is not below the product of the two factors.
pub proof fn lemma_mul_div_ceil_is_least(val: u64, num: u64, denom: u64)
    requires
        denom != 0,
        mul_div_ceil_spec(val, num, denom).is_some(),
    ensures
        ({
            let r = mul_div_ceil_spec(val, num, denom).unwrap();
            (r - 1) * denom < val * num <= r * denom
        }),
{
    let p = val as int * num as int;
    let d = denom as int;
    let q = (p + (d - 1)) / d;
    assert((q - 1) * d < p <= q * d) by (nonlinear_arith)
        requires
            d > 0,
            q == (p + (d - 1)) / d,
    ;
}

} // verus!
