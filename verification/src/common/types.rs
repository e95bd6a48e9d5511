//! Scalar identifiers and engine limits shared by every module.
use vstd::prelude::*;

verus! {

pub type OrderId = u64;
pub type UserId = u32;
pub type ClientId = u32;
pub type Price = u128;
pub type TickerId = u32;
pub type Qty = u128;
pub type Priority = u64;
pub type PoolIdx = u32;

pub const ORDER_ID_INVALID: OrderId = 0xffff_ffff_ffff_ffffu64;
pub const TICKER_ID_INVALID: TickerId = 0xffff_ffffu32;
pub const CLIENT_ID_INVALID: ClientId = 0xffff_ffffu32;
pub const PRICE_INVALID: Price = 0xffff_ffff_ffff_ffff_ffff_ffff_ffff_ffffu128;
pub const QTY_INVALID: Qty = 0xffff_ffff_ffff_ffff_ffff_ffff_ffff_ffffu128;
pub const PRIORITY_INVALID: Priority = 0xffff_ffff_ffff_ffffu64;

pub const ME_MAX_TICKERS: usize = 8;
pub const ME_MAX_CLIENT_UPDATES: usize = 262144;
pub const ME_MAX_MARKET_UPDATES: usize = 262144;
pub const ME_MAX_NUM_CLIENTS: usize = 64;
pub const ME_MAX_ORDER_IDS: usize = 16384;
pub const ME_MAX_PRICE_LEVELS: usize = 256;

} // verus!
