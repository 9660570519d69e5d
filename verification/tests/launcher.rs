use token_launcher::ErrorCode;
use token_launcher::LauncherState;
use token_launcher::buy_tokens;
use token_launcher::initialize_token_launcher;
use token_launcher::sell_tokens;
use token_launcher::withdraw_sol;

fn record(decimals: u8, price: u64, max_supply: u64, total: u64, collected: u64) -> LauncherState {
    LauncherState {
        authority: 7,
        mint: 42,
        token_name: "Launch Token".to_string(),
        token_symbol: "LT".to_string(),
        token_decimals: decimals,
        current_price: price,
        max_supply,
        total_minted: total,
        sol_collected: collected,
    }
}

fn assert_same(a: &LauncherState, b: &LauncherState) {
    assert_eq!(a.authority, b.authority);
    assert_eq!(a.mint, b.mint);
    assert_eq!(a.token_name, b.token_name);
    assert_eq!(a.token_symbol, b.token_symbol);
    assert_eq!(a.token_decimals, b.token_decimals);
    assert_eq!(a.current_price, b.current_price);
    assert_eq!(a.max_supply, b.max_supply);
    assert_eq!(a.total_minted, b.total_minted);
    assert_eq!(a.sol_collected, b.sol_collected);
}

#[test]
fn initialize_creates_fresh_record() {
    let mut slot: Option<LauncherState> = None;
    let r = initialize_token_launcher(
        &mut slot,
        7,
        42,
        "Launch Token".to_string(),
        "LT".to_string(),
        9,
        1_000_000,
        1_000_000,
    );
    assert_eq!(r, Ok(()));
    let s = slot.expect("record created");
    assert_eq!(s.authority, 7);
    assert_eq!(s.mint, 42);
    assert_eq!(s.token_name, "Launch Token");
    assert_eq!(s.token_symbol, "LT");
    assert_eq!(s.token_decimals, 9);
    assert_eq!(s.current_price, 1_000_000);
    assert_eq!(s.max_supply, 1_000_000);
    assert_eq!(s.total_minted, 0);
    assert_eq!(s.sol_collected, 0);
}

#[test]
fn initialize_refuses_existing_record() {
    let existing = record(9, 5, 10, 3, 15);
    let mut slot = Some(existing.clone());
    let r = initialize_token_launcher(
        &mut slot,
        1,
        2,
        "Other".to_string(),
        "OT".to_string(),
        0,
        1,
        1,
    );
    assert_eq!(r, Err(ErrorCode::AlreadyInitialized));
    assert_same(slot.as_ref().unwrap(), &existing);
}

#[test]
fn buy_half_the_supply_moves_price_to_150_percent() {
    // maxSupply 1_000_000 base-units at the base price: issuing half the
    // supply lifts the unit price to 1_500_000.
    let mut s = record(0, 1_000_000, 1_000_000, 0, 0);
    let r = buy_tokens(&mut s, 500_000_000_000);
    assert_eq!(r, Ok(500_000));
    assert_eq!(s.total_minted, 500_000);
    assert_eq!(s.sol_collected, 500_000_000_000);
    assert_eq!(s.current_price, 1_500_000);
}

#[test]
fn buy_at_zero_issuance_keeps_base_price() {
    let mut s = record(0, 1_000_000, 1_000_000, 0, 0);
    let r = buy_tokens(&mut s, 1_000_000);
    assert_eq!(r, Ok(1));
    // One base-unit out of a million rounds to zero percent issued.
    assert_eq!(s.current_price, 1_000_000);
}

#[test]
fn buy_scales_by_decimals() {
    let mut s = record(2, 1_000, 1_000_000, 0, 0);
    let r = buy_tokens(&mut s, 5_500);
    // floor(5500 / 1000) = 5 whole tokens, times 10^2 base-units.
    assert_eq!(r, Ok(500));
    assert_eq!(s.total_minted, 500);
    assert_eq!(s.sol_collected, 5_500);
}

#[test]
fn buy_past_the_cap_fails_and_changes_nothing() {
    let before = record(0, 1_000_000, 1_000, 500, 123);
    let mut s = before.clone();
    let r = buy_tokens(&mut s, 600_000_000);
    assert_eq!(r, Err(ErrorCode::MaxSupplyExceeded));
    assert_same(&s, &before);
}

#[test]
fn buy_below_unit_price_is_zero_quantity() {
    let before = record(0, 1_000_000, 1_000, 0, 0);
    let mut s = before.clone();
    let r = buy_tokens(&mut s, 999_999);
    assert_eq!(r, Err(ErrorCode::ZeroQuantity));
    assert_same(&s, &before);
}

#[test]
fn buy_with_huge_decimal_scale_overflows() {
    let before = record(20, 1_000_000, 1_000, 0, 0);
    let mut s = before.clone();
    let r = buy_tokens(&mut s, 2_000_000);
    assert_eq!(r, Err(ErrorCode::MathOverflow));
    assert_same(&s, &before);
}

#[test]
fn buy_token_amount_overflow_is_refused() {
    let before = record(1, 1, u64::MAX, 0, 0);
    let mut s = before.clone();
    let r = buy_tokens(&mut s, u64::MAX);
    assert_eq!(r, Err(ErrorCode::MathOverflow));
    assert_same(&s, &before);
}

#[test]
fn buy_collected_overflow_is_refused() {
    let before = record(0, 1_000_000, 10, 0, u64::MAX);
    let mut s = before.clone();
    let r = buy_tokens(&mut s, 1_000_000);
    assert_eq!(r, Err(ErrorCode::MathOverflow));
    assert_same(&s, &before);
}

#[test]
fn sell_one_whole_token_returns_90_percent() {
    // One whole token (10^9 base-units) at price 1_000_000 under 90/100
    // slippage pays out 900_000.
    let mut s = record(9, 1_000_000, 10_000_000_000, 2_000_000_000, 2_000_000);
    let r = sell_tokens(&mut s, 1_000_000_000, 2_000_000);
    assert_eq!(r, Ok(900_000));
    assert_eq!(s.total_minted, 1_000_000_000);
    assert_eq!(s.sol_collected, 1_100_000);
    // 10 percent of the cap remains issued: price is 110 percent of base.
    assert_eq!(s.current_price, 1_100_000);
}

#[test]
fn sell_of_zero_tokens_is_zero_quantity() {
    let before = record(0, 1_000_000, 1_000, 10, 10_000_000);
    let mut s = before.clone();
    let r = sell_tokens(&mut s, 0, u64::MAX);
    assert_eq!(r, Err(ErrorCode::ZeroQuantity));
    assert_same(&s, &before);
}

#[test]
fn sell_beyond_reserve_fails_and_changes_nothing() {
    let before = record(9, 1_000_000, 10_000_000_000, 2_000_000_000, 2_000_000);
    let mut s = before.clone();
    let r = sell_tokens(&mut s, 1_000_000_000, 899_999);
    assert_eq!(r, Err(ErrorCode::InsufficientReserve));
    assert_same(&s, &before);
}

#[test]
fn sell_more_than_minted_is_refused() {
    let before = record(0, 1, 1_000, 5, 1_000);
    let mut s = before.clone();
    let r = sell_tokens(&mut s, 10, u64::MAX);
    assert_eq!(r, Err(ErrorCode::MathOverflow));
    assert_same(&s, &before);
}

#[test]
fn sell_owing_more_than_collected_is_refused() {
    // The price rose since the tokens were bought: the payout would push
    // the collected total below zero.
    let before = record(0, 1_000_000, 1_000, 100, 50);
    let mut s = before.clone();
    let r = sell_tokens(&mut s, 1, u64::MAX);
    assert_eq!(r, Err(ErrorCode::MathOverflow));
    assert_same(&s, &before);
}

#[test]
fn sell_valuation_overflow_is_refused() {
    let before = record(0, u64::MAX, 1_000, 100, 50);
    let mut s = before.clone();
    let r = sell_tokens(&mut s, 3, u64::MAX);
    assert_eq!(r, Err(ErrorCode::MathOverflow));
    assert_same(&s, &before);
}

#[test]
fn sell_of_dust_pays_nothing_but_burns() {
    // Less than one whole token values to zero currency.
    let mut s = record(9, 1_000_000, 10_000_000_000, 2_000_000_000, 2_000_000);
    let r = sell_tokens(&mut s, 999_999_999, 0);
    assert_eq!(r, Ok(0));
    assert_eq!(s.total_minted, 1_000_000_001);
    assert_eq!(s.sol_collected, 2_000_000);
}

#[test]
fn withdraw_by_controller_within_reserve_is_granted() {
    let s = record(0, 1_000_000, 1_000, 100, 500);
    let r = withdraw_sol(&s, 7, 400, 500);
    assert_eq!(r, Ok(()));
}

#[test]
fn withdraw_by_stranger_is_unauthorized() {
    let s = record(0, 1_000_000, 1_000, 100, 500);
    let r = withdraw_sol(&s, 8, 1, 500);
    assert_eq!(r, Err(ErrorCode::Unauthorized));
}

#[test]
fn withdraw_beyond_reserve_is_refused() {
    let s = record(0, 1_000_000, 1_000, 100, 500);
    let r = withdraw_sol(&s, 7, 501, 500);
    assert_eq!(r, Err(ErrorCode::InsufficientReserve));
}

#[test]
fn withdraw_touches_no_bookkeeping() {
    let before = record(0, 1_000_000, 1_000, 100, 500);
    let s = before.clone();
    let _ = withdraw_sol(&s, 7, 400, 500);
    assert_same(&s, &before);
}

#[test]
fn round_trip_returns_strictly_less() {
    // Buy 3_000_000 currency-units, then sell every received token at
    // once: the payout is 90 percent of the valuation, and the price did
    // not move (3 of 1_000_000 base-units is zero percent issued).
    let mut s = record(0, 1_000_000, 1_000_000, 0, 0);
    let spent: u64 = 3_000_000;
    let bought = buy_tokens(&mut s, spent).expect("buy succeeds");
    assert_eq!(bought, 3);
    let back = sell_tokens(&mut s, bought, spent).expect("sell succeeds");
    assert_eq!(back, 2_700_000);
    assert!(back < spent);
    assert_eq!(s.total_minted, 0);
}

#[test]
fn buy_of_the_whole_cap_can_outrun_slippage() {
    // A single buy that takes the whole cap doubles the price, which is
    // more than the 90/100 slippage cushion: selling straight back then
    // returns more than was paid. The round-trip friction guarantee holds
    // only while a buy moves the price by less than the slippage margin.
    let mut s = record(0, 1_000_000, 10, 0, 100_000_000);
    let spent: u64 = 10_000_000;
    let bought = buy_tokens(&mut s, spent).expect("buy succeeds");
    assert_eq!(bought, 10);
    assert_eq!(s.current_price, 2_000_000);
    let back = sell_tokens(&mut s, bought, 200_000_000).expect("sell succeeds");
    assert_eq!(back, 18_000_000);
    assert!(back > spent);
}

#[test]
fn successive_buys_never_lower_the_price() {
    let mut s = record(0, 1_000_000, 100, 0, 0);
    let mut last_price = s.current_price;
    let r = buy_tokens(&mut s, 10_000_000);
    assert_eq!(r, Ok(10));
    assert_eq!(s.current_price, 1_100_000);
    assert!(s.current_price >= last_price);
    last_price = s.current_price;
    let r = buy_tokens(&mut s, 5_500_000);
    assert_eq!(r, Ok(5));
    assert_eq!(s.current_price, 1_150_000);
    assert!(s.current_price >= last_price);
}

#[test]
fn withdraw_can_strand_the_bookkeeping() {
    // A granted withdrawal leaves sol_collected as it was, so a later
    // sell can fail against the thinned reserve even though the books
    // still show backing.
    let mut s = record(0, 1_000_000, 1_000, 100, 100_000_000);
    let r = withdraw_sol(&s, 7, 100_000_000, 100_000_000);
    assert_eq!(r, Ok(()));
    assert_eq!(s.sol_collected, 100_000_000);
    // The host's reserve is now empty; a sell owing 900_000 is refused.
    let r = sell_tokens(&mut s, 1, 0);
    assert_eq!(r, Err(ErrorCode::InsufficientReserve));
}
