//! The accounting core: the per-asset issuance record and the four
//! operations against it. Each operation validates every precondition
//! before it mutates anything, commits its bookkeeping as a unit, and
//! leaves the record untouched when it returns an error. Moving the
//! currency and minting or burning the asset are the host's work; an
//! operation's result says exactly what the host must move.

use vstd::prelude::*;
use vstd::arithmetic::div_mod::lemma_div_by_multiple;
use vstd::arithmetic::div_mod::lemma_div_pos_is_pos;
use crate::errors::ErrorCode;
use crate::price::BASE_PRICE;
use crate::price::SLIPPAGE_DENOMINATOR;
use crate::price::SLIPPAGE_NUMERATOR;
use crate::price::lemma_pow10_positive;
use crate::price::lemma_price_bounds;
use crate::price::lemma_price_monotonic;
use crate::price::lemma_ratio_bounds;
use crate::price::pow10;
use crate::price::spec_currency_for_tokens;
use crate::price::spec_price;
use crate::price::spec_tokens_for_currency;
use crate::price::supply_ratio_pct;
use crate::price::currency_for_tokens;
use crate::price::tokens_for_currency;

verus! {

/// The issuance record of one asset: who controls the reserve, how the
/// asset is scaled, what the unit price is, and how much has been issued
/// and collected. Created once per asset; the identity and configuration
/// fields never change afterwards.
#[derive(Clone, Debug)]
pub struct LauncherState {
    /// Identity permitted to withdraw from the reserve.
    pub authority: u64,
    /// Identity of the governed asset.
    pub mint: u64,
    /// Display name of the asset.
    pub token_name: String,
    /// Display symbol of the asset.
    pub token_symbol: String,
    /// Fixed-point scale: `10^token_decimals` base-units make a whole token.
    pub token_decimals: u8,
    /// Currency-units per whole token; always positive.
    pub current_price: u64,
    /// Cap on issuable base-units; fixed at creation and positive.
    pub max_supply: u64,
    /// Base-units currently in circulation; never exceeds the cap.
    pub total_minted: u64,
    /// Currency-units collected against the issued supply.
    pub sol_collected: u64,
}

impl LauncherState {
    /// Well-formedness: holds of every record this module creates or
    /// returns, before and after every operation.
    pub open spec fn wf(self) -> bool {
        &&& self.max_supply > 0
        &&& self.total_minted <= self.max_supply
        &&& self.current_price > 0
    }

    /// The price is the curve's value at the current issuance. Initialization
    /// takes the price as given, so this holds from the first buy or sell on,
    /// and every later operation preserves it.
    pub open spec fn priced(self) -> bool {
        self.current_price == spec_price(self.total_minted, self.max_supply)
    }

    /// The record with new trade bookkeeping; identity and configuration
    /// fields kept as they are.
    pub open spec fn with_books(self, total_minted: u64, sol_collected: u64, current_price: u64) -> LauncherState {
        LauncherState {
            authority: self.authority,
            mint: self.mint,
            token_name: self.token_name,
            token_symbol: self.token_symbol,
            token_decimals: self.token_decimals,
            current_price: current_price,
            max_supply: self.max_supply,
            total_minted: total_minted,
            sol_collected: sol_collected,
        }
    }

    /// Recompute the unit price from the issued supply, per the bonding
    /// curve. Touches no other field.
    pub fn update_price(&mut self)
        requires
            old(self).max_supply > 0,
            old(self).total_minted <= old(self).max_supply,
        ensures
            final(self).current_price == spec_price(old(self).total_minted, old(self).max_supply),
            final(self).priced(),
            *final(self) == old(self).with_books(
                old(self).total_minted,
                old(self).sol_collected,
                final(self).current_price,
            ),
    {
        proof {
            lemma_ratio_bounds(self.total_minted, self.max_supply);
            lemma_price_bounds(self.total_minted, self.max_supply);
        }
        let ratio: u128 = ((self.total_minted as u128) * 100) / (self.max_supply as u128);
        assert(ratio == supply_ratio_pct(self.total_minted, self.max_supply));
        let price: u128 = ((BASE_PRICE as u128) * (100 + ratio)) / 100;
        assert(price == spec_price(self.total_minted, self.max_supply));
        self.current_price = price as u64;
    }
}

/// What a buy does to a record, as a value: the tokens bought at the
/// pre-trade price, the cap enforced, the bookkeeping advanced and the
/// price recomputed — or the typed error that refuses it.
pub open spec fn spec_buy(s: LauncherState, sol_amount: u64) -> Result<
    (LauncherState, u64),
    ErrorCode,
>
    recommends
        s.wf(),
{
    match spec_tokens_for_currency(sol_amount, s.current_price, s.token_decimals) {
        Err(e) => Err(e),
        Ok(tokens) => {
            if s.total_minted + tokens > s.max_supply {
                Err(ErrorCode::MaxSupplyExceeded)
            } else if s.sol_collected + sol_amount > u64::MAX {
                Err(ErrorCode::MathOverflow)
            } else {
                let total: u64 = (s.total_minted + tokens) as u64;
                Ok(
                    (
                        s.with_books(
                            total,
                            (s.sol_collected + sol_amount) as u64,
                            spec_price(total, s.max_supply) as u64,
                        ),
                        tokens,
                    ),
                )
            }
        },
    }
}

/// What a sell does to a record, as a value: the currency owed for the
/// burned tokens at the pre-trade price under slippage, the reserve
/// checked, the bookkeeping reduced and the price recomputed — or the
/// typed error that refuses it.
pub open spec fn spec_sell(s: LauncherState, token_amount: u64, reserve_balance: u64) -> Result<
    (LauncherState, u64),
    ErrorCode,
>
    recommends
        s.wf(),
{
    if token_amount == 0 {
        Err(ErrorCode::ZeroQuantity)
    } else {
        match spec_currency_for_tokens(token_amount, s.current_price, s.token_decimals) {
            Err(e) => Err(e),
            Ok(sol_amount) => {
                if sol_amount > reserve_balance {
                    Err(ErrorCode::InsufficientReserve)
                } else if token_amount > s.total_minted {
                    Err(ErrorCode::MathOverflow)
                } else if sol_amount > s.sol_collected {
                    Err(ErrorCode::MathOverflow)
                } else {
                    let total: u64 = (s.total_minted - token_amount) as u64;
                    Ok(
                        (
                            s.with_books(
                                total,
                                (s.sol_collected - sol_amount) as u64,
                                spec_price(total, s.max_supply) as u64,
                            ),
                            sol_amount,
                        ),
                    )
                }
            },
        }
    }
}

/// Whether a withdrawal is allowed: only the controller may take from the
/// reserve, and only what the reserve actually holds.
pub open spec fn spec_withdraw(s: LauncherState, requester: u64, amount: u64, reserve_balance: u64) -> Result<(), ErrorCode> {
    if requester != s.authority {
        Err(ErrorCode::Unauthorized)
    } else if amount > reserve_balance {
        Err(ErrorCode::InsufficientReserve)
    } else {
        Ok(())
    }
}

/// Create the issuance record for an asset, in the slot keyed by that
/// asset's identity. The record starts with nothing issued and nothing
/// collected, at the given initial price; a slot already holding a record
/// is refused and left as it is.
pub fn initialize_token_launcher(
    slot: &mut Option<LauncherState>,
    authority: u64,
    mint: u64,
    token_name: String,
    token_symbol: String,
    token_decimals: u8,
    initial_price: u64,
    max_supply: u64,
) -> (r: Result<(), ErrorCode>)
    requires
        initial_price > 0,
        max_supply > 0,
    ensures
        (*old(slot) is Some ==> r == Err::<(), ErrorCode>(ErrorCode::AlreadyInitialized)
            && *final(slot) == *old(slot)),
        (*old(slot) is None ==> r == Ok::<(), ErrorCode>(()) && *final(slot) == Some(
            LauncherState {
                authority: authority,
                mint: mint,
                token_name: token_name,
                token_symbol: token_symbol,
                token_decimals: token_decimals,
                current_price: initial_price,
                max_supply: max_supply,
                total_minted: 0,
                sol_collected: 0,
            },
        )),
        (*old(slot) is None ==> final(slot)->Some_0.wf()),
{
    if slot.is_some() {
        return Err(ErrorCode::AlreadyInitialized);
    }
    *slot = Some(
        LauncherState {
            authority: authority,
            mint: mint,
            token_name: token_name,
            token_symbol: token_symbol,
            token_decimals: token_decimals,
            current_price: initial_price,
            max_supply: max_supply,
            total_minted: 0,
            sol_collected: 0,
        },
    );
    Ok(())
}

/// Buy: convert `sol_amount` currency-units into token base-units at the
/// pre-trade price, enforce the supply cap, then commit the bookkeeping
/// and re-price as one unit. On success the host must move `sol_amount`
/// from the buyer into the reserve and mint exactly the returned amount
/// of base-units to the buyer; on an error nothing moves.
pub fn buy_tokens(state: &mut LauncherState, sol_amount: u64) -> (r: Result<u64, ErrorCode>)
    requires
        old(state).wf(),
    ensures
        final(state).wf(),
        (match r {
            Ok(tokens) => {
                &&& spec_buy(*old(state), sol_amount) == Ok::<(LauncherState, u64), ErrorCode>(
                    (*final(state), tokens),
                )
                &&& final(state).priced()
                &&& tokens > 0
                &&& final(state).total_minted == old(state).total_minted + tokens
                &&& final(state).total_minted <= final(state).max_supply
                &&& final(state).sol_collected == old(state).sol_collected + sol_amount
            },
            Err(e) => {
                &&& *final(state) == *old(state)
                &&& spec_buy(*old(state), sol_amount) == Err::<(LauncherState, u64), ErrorCode>(e)
            },
        }),
{
    let tokens: u64 = match tokens_for_currency(
        sol_amount,
        state.current_price,
        state.token_decimals,
    ) {
        Err(e) => {
            return Err(e);
        },
        Ok(t) => t,
    };
    if tokens > state.max_supply - state.total_minted {
        return Err(ErrorCode::MaxSupplyExceeded);
    }
    let collected: u64 = match state.sol_collected.checked_add(sol_amount) {
        None => {
            return Err(ErrorCode::MathOverflow);
        },
        Some(c) => c,
    };
    proof {
        lemma_pow10_positive(state.token_decimals as nat);
        assert(tokens > 0) by (nonlinear_arith)
            requires
                tokens == ((sol_amount as int) / (state.current_price as int)) * (pow10(
                    state.token_decimals as nat,
                ) as int),
                (sol_amount as int) / (state.current_price as int) >= 1,
                pow10(state.token_decimals as nat) >= 1,
        ;
        lemma_price_bounds((state.total_minted + tokens) as u64, state.max_supply);
    }
    state.total_minted = state.total_minted + tokens;
    state.sol_collected = collected;
    state.update_price();
    Ok(tokens)
}

/// Sell: value `token_amount` base-units at the pre-trade price under the
/// slippage factor, check the currency owed against the reserve the host
/// actually holds, then commit the bookkeeping and re-price as one unit.
/// On success the host must burn `token_amount` base-units from the seller
/// and move exactly the returned currency from the reserve to the seller;
/// on an error nothing moves.
pub fn sell_tokens(state: &mut LauncherState, token_amount: u64, reserve_balance: u64) -> (r:
    Result<u64, ErrorCode>)
    requires
        old(state).wf(),
    ensures
        final(state).wf(),
        (match r {
            Ok(sol_amount) => {
                &&& spec_sell(*old(state), token_amount, reserve_balance) == Ok::<
                    (LauncherState, u64),
                    ErrorCode,
                >((*final(state), sol_amount))
                &&& final(state).priced()
                &&& sol_amount <= reserve_balance
                &&& final(state).total_minted == old(state).total_minted - token_amount
                &&& final(state).sol_collected == old(state).sol_collected - sol_amount
            },
            Err(e) => {
                &&& *final(state) == *old(state)
                &&& spec_sell(*old(state), token_amount, reserve_balance) == Err::<
                    (LauncherState, u64),
                    ErrorCode,
                >(e)
            },
        }),
{
    if token_amount == 0 {
        return Err(ErrorCode::ZeroQuantity);
    }
    let sol_amount: u64 = match currency_for_tokens(
        token_amount,
        state.current_price,
        state.token_decimals,
    ) {
        Err(e) => {
            return Err(e);
        },
        Ok(v) => v,
    };
    if sol_amount > reserve_balance {
        return Err(ErrorCode::InsufficientReserve);
    }
    if token_amount > state.total_minted {
        return Err(ErrorCode::MathOverflow);
    }
    if sol_amount > state.sol_collected {
        return Err(ErrorCode::MathOverflow);
    }
    proof {
        lemma_price_bounds((state.total_minted - token_amount) as u64, state.max_supply);
    }
    state.total_minted = state.total_minted - token_amount;
    state.sol_collected = state.sol_collected - sol_amount;
    state.update_price();
    Ok(sol_amount)
}

/// Withdraw: decide whether `requester` may take `amount` from the reserve
/// the host holds. Touches no bookkeeping — a granted withdrawal reduces
/// the backing without reducing `sol_collected`. On `Ok` the host moves
/// `amount` from the reserve to the controller; on an error nothing moves.
pub fn withdraw_sol(state: &LauncherState, requester: u64, amount: u64, reserve_balance: u64) -> (r:
    Result<(), ErrorCode>)
    ensures
        r == spec_withdraw(*state, requester, amount, reserve_balance),
        (r is Ok <==> requester == state.authority && amount <= reserve_balance),
        (requester != state.authority <==> r == Err::<(), ErrorCode>(ErrorCode::Unauthorized)),
{
    if requester != state.authority {
        return Err(ErrorCode::Unauthorized);
    }
    if amount > reserve_balance {
        return Err(ErrorCode::InsufficientReserve);
    }
    Ok(())
}

/// Every successful buy leads from a well-formed record to a well-formed
/// record whose price is the curve's value at the new issuance; with the
/// supply-cap check this keeps `0 <= total_minted <= max_supply` across
/// every reachable state.
pub proof fn lemma_buy_preserves_invariant(
    s: LauncherState,
    sol_amount: u64,
    s2: LauncherState,
    tokens: u64,
)
    requires
        s.wf(),
        spec_buy(s, sol_amount) == Ok::<(LauncherState, u64), ErrorCode>((s2, tokens)),
    ensures
        s2.wf(),
        s2.priced(),
        s2.total_minted <= s2.max_supply,
{
    lemma_price_bounds(s2.total_minted, s2.max_supply);
}

/// Every successful sell leads from a well-formed record to a well-formed
/// record whose price is the curve's value at the new issuance.
pub proof fn lemma_sell_preserves_invariant(
    s: LauncherState,
    token_amount: u64,
    reserve_balance: u64,
    s2: LauncherState,
    sol_amount: u64,
)
    requires
        s.wf(),
        spec_sell(s, token_amount, reserve_balance) == Ok::<(LauncherState, u64), ErrorCode>(
            (s2, sol_amount),
        ),
    ensures
        s2.wf(),
        s2.priced(),
        s2.total_minted <= s2.max_supply,
{
    lemma_price_bounds(s2.total_minted, s2.max_supply);
}

/// Once the price is the curve's value, a buy never lowers it: issuance
/// grows and the curve is non-decreasing in the issued supply.
pub proof fn lemma_buy_price_non_decreasing(
    s: LauncherState,
    sol_amount: u64,
    s2: LauncherState,
    tokens: u64,
)
    requires
        s.wf(),
        s.priced(),
        spec_buy(s, sol_amount) == Ok::<(LauncherState, u64), ErrorCode>((s2, tokens)),
    ensures
        s.current_price <= s2.current_price,
{
    lemma_price_bounds(s.total_minted, s.max_supply);
    lemma_price_bounds(s2.total_minted, s2.max_supply);
    lemma_price_monotonic(s.total_minted, s2.total_minted, s.max_supply);
}

/// Round trip with friction: buying with `x` currency-units and at once
/// selling every received token returns strictly less than `x`, provided
/// the buy moved the price by less than the slippage margin — that is,
/// `SLIPPAGE_NUMERATOR` times the post-buy price stays below
/// `SLIPPAGE_DENOMINATOR` times the pre-buy price. (A single buy that
/// consumes a large share of the cap can raise the price past that margin
/// and make the round trip profitable; the bound is exactly the slippage
/// cushion.)
pub proof fn lemma_round_trip_friction(
    s: LauncherState,
    x: u64,
    reserve_balance: u64,
    s1: LauncherState,
    tokens: u64,
    s2: LauncherState,
    sol_back: u64,
)
    requires
        s.wf(),
        spec_buy(s, x) == Ok::<(LauncherState, u64), ErrorCode>((s1, tokens)),
        spec_sell(s1, tokens, reserve_balance) == Ok::<(LauncherState, u64), ErrorCode>(
            (s2, sol_back),
        ),
        SLIPPAGE_NUMERATOR * s1.current_price < SLIPPAGE_DENOMINATOR * s.current_price,
    ensures
        sol_back < x,
{
    let p: int = s.current_price as int;
    let d: nat = s.token_decimals as nat;
    let p10: int = pow10(d) as int;
    let whole: int = (x as int) / p;
    let pp: int = s1.current_price as int;
    lemma_pow10_positive(d);
    lemma_div_pos_is_pos(x as int, p);
    assert(spec_tokens_for_currency(x, s.current_price, s.token_decimals) == Ok::<u64, ErrorCode>(
        tokens,
    ));
    assert(whole * p10 >= 0) by (nonlinear_arith)
        requires
            whole >= 0,
            p10 >= 0,
    ;
    assert(tokens == whole * p10);
    assert(whole >= 1);
    assert(s1.token_decimals == s.token_decimals);
    assert(spec_currency_for_tokens(tokens, s1.current_price, s1.token_decimals) == Ok::<
        u64,
        ErrorCode,
    >(sol_back));
    lemma_div_by_multiple(whole, p10);
    assert((tokens as int) / p10 == whole);
    assert(whole * pp * 90 >= 0) by (nonlinear_arith)
        requires
            whole >= 0,
            pp >= 0,
    ;
    assert(0 <= (whole * pp * 90) / 100 <= whole * pp * 90) by (nonlinear_arith)
        requires
            whole * pp * 90 >= 0,
    ;
    assert(sol_back == (whole * pp * 90) / 100);
    assert(x >= whole * p) by (nonlinear_arith)
        requires
            whole == (x as int) / p,
            p > 0,
            x >= 0,
    ;
    assert(whole * pp * 90 < whole * p * 100) by (nonlinear_arith)
        requires
            9 * pp < 10 * p,
            whole >= 1,
            pp >= 0,
            p >= 0,
    ;
    assert((whole * pp * 90) / 100 < whole * p) by (nonlinear_arith)
        requires
            whole * pp * 90 < whole * p * 100,
            whole * pp * 90 >= 0,
    ;
}

} // verus!
