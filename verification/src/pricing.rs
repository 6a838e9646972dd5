use crate::auction::{calculate_rate_bump, AuctionData};
use crate::constants::{BASE_1E2, BASE_1E5};
use crate::error::SwapError;
use crate::math::{lemma_mul_div_ceil_is_least, mul_div_ceil, mul_div_ceil_spec, mul_div_floor};
use vstd::prelude::*;

verus! {

/// The share of `initial_dst_amount` that falls to `src_amount` out of
/// `initial_src_amount`, rounded up; `None` where it is no 64-bit amount.
pub open spec fn proportional_amount(
    initial_src_amount: u64,
    initial_dst_amount: u64,
    src_amount: u64,
) -> Option<u64>
    recommends
        initial_src_amount != 0,
{
    mul_div_ceil_spec(initial_dst_amount, src_amount, initial_src_amount)
}

/// `amount` raised by `rate_bump` hundred-thousandths, rounded up; `None`
/// where that is no 64-bit amount.
pub open spec fn bumped_amount(amount: u64, rate_bump: int) -> Option<u64>
    recommends
        0 <= rate_bump <= 0xffff,
{
    mul_div_ceil_spec(amount, (BASE_1E5 + rate_bump) as u64, BASE_1E5)
}

/// What a taker owes for `src_amount`: the proportional share of
/// `initial_dst_amount`, raised by the auction's rate bump at `timestamp`
/// where an auction is given.
pub open spec fn dst_amount_spec(
    initial_src_amount: u64,
    initial_dst_amount: u64,
    src_amount: u64,
    opt_data: Option<&AuctionData>,
    timestamp: u64,
) -> Option<u64>
    recommends
        initial_src_amount != 0,
{
    match proportional_amount(initial_src_amount, initial_dst_amount, src_amount) {
        None => None,
        Some(base) => match opt_data {
            None => Some(base),
            Some(data) => bumped_amount(base, data.rate_bump_at(timestamp as int)),
        },
    }
}

/// The amount of the destination asset owed for `src_amount` of an order that
/// offers `initial_src_amount` for `initial_dst_amount`, priced at `timestamp`
/// along the auction curve if one is given. Fails with `ArithmeticOverflow`
/// exactly where the amount does not fit in 64 bits.
pub fn get_dst_amount(
    initial_src_amount: u64,
    initial_dst_amount: u64,
    src_amount: u64,
    opt_data: Option<&AuctionData>,
    timestamp: u64,
) -> (r: Result<u64, SwapError>)
    requires
        initial_src_amount != 0,
    ensures
        match r {
            Ok(amount) => dst_amount_spec(
                initial_src_amount,
                initial_dst_amount,
                src_amount,
                opt_data,
                timestamp,
            ) == Some(amount),
            Err(e) => e == SwapError::ArithmeticOverflow && dst_amount_spec(
                initial_src_amount,
                initial_dst_amount,
                src_amount,
                opt_data,
                timestamp,
            ).is_none(),
        },
{
    let base: u64 = match mul_div_ceil(initial_dst_amount, src_amount, initial_src_amount) {
        Some(v) => v,
        None => { return Err(SwapError::ArithmeticOverflow); },
    };
    match opt_data {
        None => Ok(base),
        Some(data) => {
            let rate_bump: u64 = calculate_rate_bump(timestamp, data);
            proof {
                data.lemma_rate_bump_bounded(timestamp as int);
            }
            match mul_div_ceil(base, BASE_1E5 + rate_bump, BASE_1E5) {
                Some(v) => Ok(v),
                None => Err(SwapError::ArithmeticOverflow),
            }
        },
    }
}

/// `fee` hundred-thousandths of `amount`, rounded down.
pub open spec fn fee_share(amount: u64, fee: u16) -> int {
    (amount as int * fee as int) / (BASE_1E5 as int)
}

/// What is left of `dst_amount` once both fees are taken; negative where the
/// fees together exceed the whole.
pub open spec fn amount_after_fees(dst_amount: u64, protocol_fee: u16, integrator_fee: u16) -> int {
    dst_amount - fee_share(dst_amount, protocol_fee) - fee_share(dst_amount, integrator_fee)
}

/// The protocol's part of the surplus: `surplus_percentage` hundredths of
/// what `actual` exceeds `estimated` by, rounded down, and nothing where it
/// does not exceed it.
pub open spec fn surplus_share(actual: int, estimated: int, surplus_percentage: u8) -> int {
    if actual > estimated {
        ((actual - estimated) * surplus_percentage as int) / (BASE_1E2 as int)
    } else {
        0
    }
}

/// All that the protocol receives: its fee and its part of the surplus.
pub open spec fn protocol_amount(
    protocol_fee: u16,
    integrator_fee: u16,
    surplus_percentage: u8,
    dst_amount: u64,
    estimated_dst_amount: u64,
) -> int {
    fee_share(dst_amount, protocol_fee) + surplus_share(
        amount_after_fees(dst_amount, protocol_fee, integrator_fee),
        estimated_dst_amount as int,
        surplus_percentage,
    )
}

/// The three shares of `dst_amount`, in the order protocol, integrator,
/// maker; `None` where the protocol's and the integrator's shares together
/// exceed `dst_amount`.
pub open spec fn fee_amounts_spec(
    integrator_fee: u16,
    protocol_fee: u16,
    surplus_percentage: u8,
    dst_amount: u64,
    estimated_dst_amount: u64,
) -> Option<(u64, u64, u64)> {
    let protocol = protocol_amount(
        protocol_fee,
        integrator_fee,
        surplus_percentage,
        dst_amount,
        estimated_dst_amount,
    );
    let integrator = fee_share(dst_amount, integrator_fee);
    if protocol + integrator <= dst_amount {
        Some((protocol as u64, integrator as u64, (dst_amount - integrator - protocol) as u64))
    } else {
        None
    }
}

proof fn lemma_fee_share_bounds(amount: u64, fee: u16)
    ensures
        0 <= fee_share(amount, fee) <= amount,
{
    let a = amount as int;
    let f = fee as int;
    assert(0 <= (a * f) / 100000 <= a) by (nonlinear_arith)
        requires
            0 <= a,
            0 <= f < 100000,
    ;
}

proof fn lemma_surplus_share_nonnegative(actual: int, estimated: int, surplus_percentage: u8)
    ensures
        0 <= surplus_share(actual, estimated, surplus_percentage),
{
    let d = actual - estimated;
    let p = surplus_percentage as int;
    if actual > estimated {
        assert(0 <= (d * p) / 100) by (nonlinear_arith)
            requires
                0 < d,
                0 <= p,
        ;
    }
}

/// Splits `dst_amount` into the protocol's, the integrator's and the maker's
/// share, in that order. Fails with `ArithmeticOverflow` exactly where the
/// first two together exceed `dst_amount`.
pub fn get_fee_amounts(
    integrator_fee: u16,
    protocol_fee: u16,
    surplus_percentage: u8,
    dst_amount: u64,
    estimated_dst_amount: u64,
) -> (r: Result<(u64, u64, u64), SwapError>)
    ensures
        match r {
            Ok(shares) => fee_amounts_spec(
                integrator_fee,
                protocol_fee,
                surplus_percentage,
                dst_amount,
                estimated_dst_amount,
            ) == Some(shares),
            Err(e) => e == SwapError::ArithmeticOverflow && fee_amounts_spec(
                integrator_fee,
                protocol_fee,
                surplus_percentage,
                dst_amount,
                estimated_dst_amount,
            ).is_none(),
        },
{
    proof {
        lemma_fee_share_bounds(dst_amount, integrator_fee);
        lemma_fee_share_bounds(dst_amount, protocol_fee);
        lemma_surplus_share_nonnegative(
            amount_after_fees(dst_amount, protocol_fee, integrator_fee),
            estimated_dst_amount as int,
            surplus_percentage,
        );
    }
    let integrator_fee_amount: u64 = match mul_div_floor(
        dst_amount,
        integrator_fee as u64,
        BASE_1E5,
    ) {
        Some(v) => v,
        None => { return Err(SwapError::ArithmeticOverflow); },
    };
    let mut protocol_fee_amount: u64 = match mul_div_floor(
        dst_amount,
        protocol_fee as u64,
        BASE_1E5,
    ) {
        Some(v) => v,
        None => { return Err(SwapError::ArithmeticOverflow); },
    };
    let actual_dst_amount: u64 = match (dst_amount - protocol_fee_amount).checked_sub(
        integrator_fee_amount,
    ) {
        Some(v) => v,
        None => { return Err(SwapError::ArithmeticOverflow); },
    };
    if actual_dst_amount > estimated_dst_amount {
        let surplus: u64 = match mul_div_floor(
            actual_dst_amount - estimated_dst_amount,
            surplus_percentage as u64,
            BASE_1E2,
        ) {
            Some(v) => v,
            None => { return Err(SwapError::ArithmeticOverflow); },
        };
        protocol_fee_amount = match protocol_fee_amount.checked_add(surplus) {
            Some(v) => v,
            None => { return Err(SwapError::ArithmeticOverflow); },
        };
    }
    let after_integrator: u64 = dst_amount - integrator_fee_amount;
    match after_integrator.checked_sub(protocol_fee_amount) {
        Some(maker_amount) => Ok((protocol_fee_amount, integrator_fee_amount, maker_amount)),
        None => Err(SwapError::ArithmeticOverflow),
    }
}

/// The three shares of a fee split add up to the amount that was split:
/// nothing is lost to rounding.
pub proof fn lemma_fee_split_is_exact(
    integrator_fee: u16,
    protocol_fee: u16,
    surplus_percentage: u8,
    dst_amount: u64,
    estimated_dst_amount: u64,
)
    requires
        fee_amounts_spec(
            integrator_fee,
            protocol_fee,
            surplus_percentage,
            dst_amount,
            estimated_dst_amount,
        ).is_some(),
    ensures
        ({
            let shares = fee_amounts_spec(
                integrator_fee,
                protocol_fee,
                surplus_percentage,
                dst_amount,
                estimated_dst_amount,
            ).unwrap();
            shares.0 + shares.1 + shares.2 == dst_amount
        }),
{
    lemma_fee_share_bounds(dst_amount, integrator_fee);
    lemma_fee_share_bounds(dst_amount, protocol_fee);
    lemma_surplus_share_nonnegative(
        amount_after_fees(dst_amount, protocol_fee, integrator_fee),
        estimated_dst_amount as int,
        surplus_percentage,
    );
}

/// A surplus changes the protocol's share and no other. The integrator
/// receives its fee and nothing else. The protocol receives its fee and, on
/// top of it, a part of the surplus that is never negative and is nothing
/// unless what is left after the fees exceeds the estimate. The maker bears
/// the fees and that part, and nothing else.
pub proof fn lemma_surplus_goes_to_protocol(
    integrator_fee: u16,
    protocol_fee: u16,
    surplus_percentage: u8,
    dst_amount: u64,
    estimated_dst_amount: u64,
)
    requires
        fee_amounts_spec(
            integrator_fee,
            protocol_fee,
            surplus_percentage,
            dst_amount,
            estimated_dst_amount,
        ).is_some(),
    ensures
        ({
            let shares = fee_amounts_spec(
                integrator_fee,
                protocol_fee,
                surplus_percentage,
                dst_amount,
                estimated_dst_amount,
            ).unwrap();
            let actual = amount_after_fees(dst_amount, protocol_fee, integrator_fee);
            let surplus = shares.0 - fee_share(dst_amount, protocol_fee);
            &&& shares.1 == fee_share(dst_amount, integrator_fee)
            &&& surplus >= 0
            &&& surplus == surplus_share(actual, estimated_dst_amount as int, surplus_percentage)
            &&& actual <= estimated_dst_amount ==> surplus == 0
            &&& shares.2 == actual - surplus
        }),
{
    lemma_fee_share_bounds(dst_amount, integrator_fee);
    lemma_fee_share_bounds(dst_amount, protocol_fee);
    lemma_surplus_share_nonnegative(
        amount_after_fees(dst_amount, protocol_fee, integrator_fee),
        estimated_dst_amount as int,
        surplus_percentage,
    );
}

/// With a surplus percentage of at most 100, a fee split succeeds exactly
/// where the two fees together do not exceed the amount.
pub proof fn lemma_fee_split_succeeds(
    integrator_fee: u16,
    protocol_fee: u16,
    surplus_percentage: u8,
    dst_amount: u64,
    estimated_dst_amount: u64,
)
    requires
        surplus_percentage <= BASE_1E2,
    ensures
        fee_amounts_spec(
            integrator_fee,
            protocol_fee,
            surplus_percentage,
            dst_amount,
            estimated_dst_amount,
        ).is_some() <==> amount_after_fees(dst_amount, protocol_fee, integrator_fee) >= 0,
{
    lemma_fee_share_bounds(dst_amount, integrator_fee);
    lemma_fee_share_bounds(dst_amount, protocol_fee);
    let actual = amount_after_fees(dst_amount, protocol_fee, integrator_fee);
    let est = estimated_dst_amount as int;
    lemma_surplus_share_nonnegative(actual, est, surplus_percentage);
    if actual > est {
        let d = actual - est;
        let p = surplus_percentage as int;
        assert((d * p) / 100 <= d) by (nonlinear_arith)
            requires
                0 < d,
                0 <= p <= 100,
        ;
    }
}

/// The maker is never owed less than the exact share: the proportional
/// amount is the least whose product with the order's source amount is not
/// below the product of the order's destination amount and the amount
/// filled.
pub proof fn lemma_proportional_amount_covers_share(
    initial_src_amount: u64,
    initial_dst_amount: u64,
    src_amount: u64,
)
    requires
        initial_src_amount != 0,
        proportional_amount(initial_src_amount, initial_dst_amount, src_amount).is_some(),
    ensures
        ({
            let r = proportional_amount(
                initial_src_amount,
                initial_dst_amount,
                src_amount,
            ).unwrap();
            (r - 1) * initial_src_amount < initial_dst_amount * src_amount <= r
                * initial_src_amount
        }),
{
    lemma_mul_div_ceil_is_least(initial_dst_amount, src_amount, initial_src_amount);
}

/// The auction never lowers what is owed: the amount with the rate bump is
/// at least the amount without it, and the same where the bump is 0.
pub proof fn lemma_bump_never_lowers(amount: u64, rate_bump: int)
    requires
        0 <= rate_bump <= 0xffff,
        bumped_amount(amount, rate_bump).is_some(),
    ensures
        bumped_amount(amount, rate_bump).unwrap() >= amount,
        rate_bump == 0 ==> bumped_amount(amount, rate_bump).unwrap() == amount,
{
    let a = amount as int;
    let b = (BASE_1E5 + rate_bump) as int;
    lemma_mul_div_ceil_is_least(amount, (BASE_1E5 + rate_bump) as u64, BASE_1E5);
    let r = bumped_amount(amount, rate_bump).unwrap() as int;
    assert(a * 100000 <= a * b) by (nonlinear_arith)
        requires
            0 <= a,
            100000 <= b,
    ;
    if rate_bump == 0 {
        assert(r * 100000 >= a * 100000 > (r - 1) * 100000);
    }
}

} // verus!
