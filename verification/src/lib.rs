//! A bonding-curve token launcher: issues and redeems a capped fungible
//! asset against a currency reserve, with the unit price derived from how
//! much of the supply has been issued.
//!
//! The crate is the pricing and accounting core alone. Moving the currency,
//! minting and burning the asset, and verifying signatures are the host's
//! work: each operation here validates its inputs, computes the conversion,
//! commits the bookkeeping, and tells the caller what to move.

pub mod errors;
pub mod ledger;
pub mod price;

pub use errors::ErrorCode;
pub use ledger::LauncherState;
pub use ledger::buy_tokens;
pub use ledger::initialize_token_launcher;
pub use ledger::sell_tokens;
pub use ledger::withdraw_sol;
pub use price::BASE_PRICE;
pub use price::SLIPPAGE_DENOMINATOR;
pub use price::SLIPPAGE_NUMERATOR;
