//! The price engine: a piecewise-linear bonding curve from `BASE_PRICE` at
//! zero issuance to twice `BASE_PRICE` at full issuance, and the pure
//! conversions between payment amounts and token quantities at a given price.

use vstd::prelude::*;
use vstd::arithmetic::div_mod::lemma_div_is_ordered;
use vstd::arithmetic::div_mod::lemma_div_pos_is_pos;
use vstd::arithmetic::div_mod::lemma_div_by_multiple;
use crate::errors::ErrorCode;

verus! {

/// Currency-units per whole token when nothing has been issued.
pub const BASE_PRICE: u64 = 1_000_000;

/// Numerator of the sell-side slippage factor: sellers receive this share
/// (over `SLIPPAGE_DENOMINATOR`) of the nominal valuation.
pub const SLIPPAGE_NUMERATOR: u64 = 90;

/// Denominator of the sell-side slippage factor.
pub const SLIPPAGE_DENOMINATOR: u64 = 100;

/// `10^d`: the number of base-units in one whole token at fixed-point scale `d`.
pub open spec fn pow10(d: nat) -> nat
    decreases d,
{
    if d == 0 {
        1
    } else {
        10 * pow10((d - 1) as nat)
    }
}

pub proof fn lemma_pow10_positive(d: nat)
    ensures
        pow10(d) >= 1,
    decreases d,
{
    if d > 0 {
        lemma_pow10_positive((d - 1) as nat);
    }
}

pub proof fn lemma_pow10_increases(a: nat, b: nat)
    requires
        a <= b,
    ensures
        pow10(a) <= pow10(b),
    decreases b,
{
    if a < b {
        lemma_pow10_increases(a, (b - 1) as nat);
    }
}

/// The issued share of the cap, as an integer percentage.
pub open spec fn supply_ratio_pct(total_minted: u64, max_supply: u64) -> int
    recommends
        max_supply > 0,
{
    ((total_minted as int) * 100) / (max_supply as int)
}

/// The bonding curve: the unit price grows by one percent of `BASE_PRICE`
/// for each percent of the cap that has been issued.
pub open spec fn spec_price(total_minted: u64, max_supply: u64) -> int
    recommends
        max_supply > 0,
{
    ((BASE_PRICE as int) * (100 + supply_ratio_pct(total_minted, max_supply))) / 100
}

pub proof fn lemma_ratio_bounds(total_minted: u64, max_supply: u64)
    requires
        max_supply > 0,
        total_minted <= max_supply,
    ensures
        0 <= supply_ratio_pct(total_minted, max_supply) <= 100,
{
    lemma_div_pos_is_pos((total_minted as int) * 100, max_supply as int);
    lemma_div_is_ordered(
        (total_minted as int) * 100,
        (max_supply as int) * 100,
        max_supply as int,
    );
    lemma_div_by_multiple(100, max_supply as int);
}

/// The curve's value lies between `BASE_PRICE` and `2 * BASE_PRICE`;
/// in particular it is never zero.
pub proof fn lemma_price_bounds(total_minted: u64, max_supply: u64)
    requires
        max_supply > 0,
        total_minted <= max_supply,
    ensures
        BASE_PRICE <= spec_price(total_minted, max_supply),
        spec_price(total_minted, max_supply) <= 2 * BASE_PRICE,
{
    lemma_ratio_bounds(total_minted, max_supply);
    let r: int = supply_ratio_pct(total_minted, max_supply);
    lemma_div_is_ordered(
        (BASE_PRICE as int) * 100,
        (BASE_PRICE as int) * (100 + r),
        100,
    );
    lemma_div_is_ordered(
        (BASE_PRICE as int) * (100 + r),
        (BASE_PRICE as int) * 200,
        100,
    );
}

/// The curve is non-decreasing in the issued supply, for a fixed cap.
pub proof fn lemma_price_monotonic(total_a: u64, total_b: u64, max_supply: u64)
    requires
        max_supply > 0,
        total_a <= total_b,
    ensures
        spec_price(total_a, max_supply) <= spec_price(total_b, max_supply),
{
    lemma_div_is_ordered(
        (total_a as int) * 100,
        (total_b as int) * 100,
        max_supply as int,
    );
    let ra: int = supply_ratio_pct(total_a, max_supply);
    let rb: int = supply_ratio_pct(total_b, max_supply);
    lemma_div_is_ordered(
        (BASE_PRICE as int) * (100 + ra),
        (BASE_PRICE as int) * (100 + rb),
        100,
    );
}

/// `10^d` as a `u64`, or `None` where it does not fit.
pub fn pow10_checked(d: u8) -> (r: Option<u64>)
    ensures
        r is Some <==> pow10(d as nat) <= u64::MAX,
        (r matches Some(v) ==> v == pow10(d as nat)),
{
    let mut acc: u64 = 1;
    let mut i: u8 = 0;
    while i < d
        invariant
            i <= d,
            acc == pow10(i as nat),
        decreases d - i,
    {
        match acc.checked_mul(10) {
            None => {
                proof {
                    lemma_pow10_increases((i + 1) as nat, d as nat);
                }
                return None;
            },
            Some(next) => {
                acc = next;
            },
        }
        i = i + 1;
    }
    Some(acc)
}

/// Buy-side conversion: the token base-units that `sol_amount` currency-units
/// purchase at unit price `price` and fixed-point scale `decimals`. The whole
/// count of tokens is the payment divided by the price, rounded down; a zero
/// count or an amount outside the integer domain is refused.
pub open spec fn spec_tokens_for_currency(sol_amount: u64, price: u64, decimals: u8) -> Result<
    u64,
    ErrorCode,
>
    recommends
        price > 0,
{
    if pow10(decimals as nat) > u64::MAX {
        Err(ErrorCode::MathOverflow)
    } else {
        let whole: int = (sol_amount as int) / (price as int);
        if whole == 0 {
            Err(ErrorCode::ZeroQuantity)
        } else if whole * (pow10(decimals as nat) as int) > u64::MAX {
            Err(ErrorCode::MathOverflow)
        } else {
            Ok((whole * (pow10(decimals as nat) as int)) as u64)
        }
    }
}

pub fn tokens_for_currency(sol_amount: u64, price: u64, decimals: u8) -> (r: Result<
    u64,
    ErrorCode,
>)
    requires
        price > 0,
    ensures
        r == spec_tokens_for_currency(sol_amount, price, decimals),
{
    let p10: u64 = match pow10_checked(decimals) {
        None => {
            return Err(ErrorCode::MathOverflow);
        },
        Some(p) => p,
    };
    let whole: u64 = sol_amount / price;
    if whole == 0 {
        return Err(ErrorCode::ZeroQuantity);
    }
    match whole.checked_mul(p10) {
        None => Err(ErrorCode::MathOverflow),
        Some(tokens) => Ok(tokens),
    }
}

/// Sell-side conversion: the currency-units returned for `token_amount`
/// base-units at unit price `price` and fixed-point scale `decimals`, after
/// the slippage factor. Only whole tokens are valued: the base-units are
/// divided by `10^decimals`, rounded down, before pricing.
pub open spec fn spec_currency_for_tokens(token_amount: u64, price: u64, decimals: u8) -> Result<
    u64,
    ErrorCode,
>
{
    if pow10(decimals as nat) > u64::MAX {
        Err(ErrorCode::MathOverflow)
    } else {
        let whole: int = (token_amount as int) / (pow10(decimals as nat) as int);
        if whole * (price as int) > u64::MAX {
            Err(ErrorCode::MathOverflow)
        } else if whole * (price as int) * (SLIPPAGE_NUMERATOR as int) > u64::MAX {
            Err(ErrorCode::MathOverflow)
        } else {
            Ok(((whole * (price as int) * (SLIPPAGE_NUMERATOR as int)) / (
            SLIPPAGE_DENOMINATOR as int)) as u64)
        }
    }
}

pub fn currency_for_tokens(token_amount: u64, price: u64, decimals: u8) -> (r: Result<
    u64,
    ErrorCode,
>)
    ensures
        r == spec_currency_for_tokens(token_amount, price, decimals),
{
    let p10: u64 = match pow10_checked(decimals) {
        None => {
            return Err(ErrorCode::MathOverflow);
        },
        Some(p) => p,
    };
    proof {
        lemma_pow10_positive(decimals as nat);
    }
    let whole: u64 = token_amount / p10;
    let nominal: u64 = match whole.checked_mul(price) {
        None => {
            return Err(ErrorCode::MathOverflow);
        },
        Some(v) => v,
    };
    let scaled: u64 = match nominal.checked_mul(SLIPPAGE_NUMERATOR) {
        None => {
            return Err(ErrorCode::MathOverflow);
        },
        Some(v) => v,
    };
    Ok(scaled / SLIPPAGE_DENOMINATOR)
}

} // verus!
