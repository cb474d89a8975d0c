use vstd::prelude::*;

verus! {

/// A point in time, as the host counts it: an integer number of units since a
/// fixed epoch.
pub type Timestamp = near_sdk::Timestamp;

/// A freshness bound, in whole seconds.
pub type DurationSec = u32;

/// The identifier of an asset, as the oracle names it.
pub type AssetId = String;

/// The integer mantissa of a price.
pub type Balance = u128;

/// No attached deposit on the outbound call.
pub const NO_DEPOSIT: u128 = 0;

/// The status code a successful cross-contract call reports.
pub const XCC_SUCCESS: u64 = 1;

/// An exact price: `multiplier / 10^decimals`.
#[derive(Clone, Copy, Debug, PartialEq, Eq, Structural)]
pub struct Price {
    pub multiplier: Balance,
    pub decimals: u8,
}

/// One asset with its current quote, or `None` when the oracle has none.
pub struct AssetOptionalPrice {
    pub asset_id: AssetId,
    pub price: Option<Price>,
}

/// The oracle's answer: when it was made, how long it stays fresh, and the
/// quotes in the order the oracle gave them.
pub struct PriceData {
    pub timestamp: Timestamp,
    pub recency_duration_sec: DurationSec,
    pub prices: Vec<AssetOptionalPrice>,
}

} // verus!
