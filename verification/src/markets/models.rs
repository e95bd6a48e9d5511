//! Markets as the instruments service stores and serves them.
use vstd::prelude::*;

verus! {

/// A market: a pair of assets, its position in the engine's market list, and
/// its trading increments as scaled integers.
#[derive(Debug, Clone, Copy)]
pub struct Market {
    pub id: i32,
    /// Id of the base asset, the one bought and sold (ETH in ETH/USDT).
    pub base_asset_id: i32,
    /// Id of the quote asset, the one prices are given in (USDT in ETH/USDT).
    pub quote_asset_id: i32,
    pub market_index: i32,
    /// Minimum price increment in quote units; a price is a multiple of it.
    pub tick_size: i64,
    /// Minimum quantity increment in base units; a quantity is a multiple of it.
    pub lot_size: i64,
    /// Minimum order value (price times quantity) in quote units.
    pub min_notional: i64,
    /// Decimal places by which prices are scaled.
    pub price_scale: i32,
    /// Decimal places by which quantities are scaled.
    pub qty_scale: i32,
    pub is_active: bool,
}

/// A market with the names of its two assets in place of their ids.
#[derive(Debug)]
pub struct MarketWithAssets {
    pub id: i32,
    pub base: String,
    pub quote: String,
    pub market_index: i32,
    pub is_active: bool,
    pub tick_size: i64,
    pub lot_size: i64,
    pub min_notional: i64,
    pub price_scale: i32,
    pub qty_scale: i32,
}

} // verus!
