//! The markets service: what it answers for the markets its repository holds.
use vstd::prelude::*;
use vstd::string::StringExecFns;

use std::sync::Arc;

use crate::markets::models::{Market, MarketWithAssets};

verus! {

/// Serves the markets of a repository.
pub struct MarketsService<T> {
    repo: Arc<T>,
}

impl<T: Send + Sync> MarketsService<T> {
    /// The repository the service reads.
    pub closed spec fn repo(&self) -> T {
        *self.repo
    }

    pub fn new(repo: Arc<T>) -> (s: Self)
        ensures
            s.repo() == *repo,
    {
        Self { repo }
    }
}

/// A market as the service lists it: its symbol in place of its asset names.
pub struct MarketInfo {
    pub id: i32,
    pub market_index: i32,
    pub symbol: String,
    pub is_active: bool,
    pub price_scale: i32,
    pub qty_scale: i32,
    pub tick_size: i64,
    pub lot_size: i64,
    pub min_notional: i64,
}

/// A market's id and its position in the engine's market list.
#[derive(Debug, Clone, Copy, PartialEq, Eq, Structural)]
pub struct MarketIdEntry {
    pub id: i32,
    pub market_index: i32,
}

/// Symbol of a market: base name, a hyphen, quote name.
pub open spec fn symbol_of(base: Seq<char>, quote: Seq<char>) -> Seq<char> {
    base + seq!['-'] + quote
}

/// `info` lists `m`.
pub open spec fn lists(info: MarketInfo, m: MarketWithAssets) -> bool {
    &&& info.id == m.id
    &&& info.market_index == m.market_index
    &&& info.symbol@ == symbol_of(m.base@, m.quote@)
    &&& info.is_active == m.is_active
    &&& info.price_scale == m.price_scale
    &&& info.qty_scale == m.qty_scale
    &&& info.tick_size == m.tick_size
    &&& info.lot_size == m.lot_size
    &&& info.min_notional == m.min_notional
}

/// The symbol of the market with base `base` and quote `quote`.
pub fn market_symbol(base: &String, quote: &String) -> (s: String)
    ensures
        s@ == symbol_of(base@, quote@),
{
    let mut s = base.clone();
    s.append("-");
    s.append(quote.as_str());
    proof {
        reveal_strlit("-");
    }
    s
}

/// The markets listing: each market in order, with its symbol.
pub fn markets_reply(markets: Vec<MarketWithAssets>) -> (r: Vec<MarketInfo>)
    ensures
        r.len() == markets.len(),
        forall|i: int| 0 <= i < markets.len() ==> lists(#[trigger] r[i], markets[i]),
{
    let mut out: Vec<MarketInfo> = Vec::new();
    let mut i: usize = 0;
    while i < markets.len()
        invariant
            i <= markets.len(),
            out.len() == i,
            forall|k: int| 0 <= k < i ==> lists(#[trigger] out[k], markets[k]),
        decreases markets.len() - i,
    {
        let m = &markets[i];
        let symbol = market_symbol(&m.base, &m.quote);
        out.push(
            MarketInfo {
                id: m.id,
                market_index: m.market_index,
                symbol,
                is_active: m.is_active,
                price_scale: m.price_scale,
                qty_scale: m.qty_scale,
                tick_size: m.tick_size,
                lot_size: m.lot_size,
                min_notional: m.min_notional,
            },
        );
        i = i + 1;
    }
    out
}

/// The market ids listing: each market's id and index, in order.
pub fn markets_ids_reply(markets: Vec<Market>) -> (r: Vec<MarketIdEntry>)
    ensures
        r.len() == markets.len(),
        forall|i: int|
            0 <= i < markets.len() ==> #[trigger] r[i] == (MarketIdEntry {
                id: markets[i].id,
                market_index: markets[i].market_index,
            }),
{
    let mut out: Vec<MarketIdEntry> = Vec::new();
    let mut i: usize = 0;
    while i < markets.len()
        invariant
            i <= markets.len(),
            out.len() == i,
            forall|k: int|
                0 <= k < i ==> #[trigger] out[k] == (MarketIdEntry {
                    id: markets[k].id,
                    market_index: markets[k].market_index,
                }),
        decreases markets.len() - i,
    {
        out.push(MarketIdEntry { id: markets[i].id, market_index: markets[i].market_index });
        i = i + 1;
    }
    out
}

} // verus!
