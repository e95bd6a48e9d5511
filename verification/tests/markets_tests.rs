use std::sync::Arc;

use exchange::markets::config::{
    check_markets_config, validate_markets_config, Config, MarketConfigIssue, MarketListing,
};
use exchange::markets::error::{ProgramError, StatusCode};
use exchange::markets::models::{Market, MarketWithAssets};
use exchange::markets::service::{
    market_symbol, markets_ids_reply, markets_reply, MarketIdEntry, MarketsService,
};

fn listing(index: i32, base: &str, quote: &str) -> MarketListing {
    MarketListing { market_index: index, base: base.to_string(), quote: quote.to_string() }
}

#[test]
fn valid_market_list_passes() {
    let ms = vec![listing(0, "BTC", "USDT"), listing(1, "ETH", "USDT"), listing(2, "ETH", "BTC")];
    assert_eq!(check_markets_config(&ms), Ok(()));
    assert!(validate_markets_config(&ms));
    assert!(validate_markets_config(&Vec::new()));
}

#[test]
fn each_issue_is_reported_at_its_market() {
    let blank_base = vec![listing(0, "BTC", "USDT"), listing(1, "  ", "USDT")];
    assert_eq!(check_markets_config(&blank_base), Err((1, MarketConfigIssue::EmptyBase)));
    let blank_quote = vec![listing(0, "BTC", "")];
    assert_eq!(check_markets_config(&blank_quote), Err((0, MarketConfigIssue::EmptyQuote)));
    let same = vec![listing(0, "BTC", "BTC")];
    assert_eq!(check_markets_config(&same), Err((0, MarketConfigIssue::SameAssets)));
    let dup = vec![listing(0, "BTC", "USDT"), listing(1, "ETH", "USDT"), listing(2, "BTC", "USDT")];
    assert_eq!(check_markets_config(&dup), Err((2, MarketConfigIssue::Duplicate)));
    let gap = vec![listing(0, "BTC", "USDT"), listing(2, "ETH", "USDT")];
    assert_eq!(check_markets_config(&gap), Err((1, MarketConfigIssue::IndexMismatch)));
    let negative = vec![listing(-1, "BTC", "USDT")];
    assert_eq!(check_markets_config(&negative), Err((0, MarketConfigIssue::IndexMismatch)));
    assert!(!validate_markets_config(&gap));
}

#[test]
fn first_issue_wins() {
    // market 0 has a bad index, market 1 a blank base: market 0 is reported
    let ms = vec![listing(5, "BTC", "USDT"), listing(1, "", "USDT")];
    assert_eq!(check_markets_config(&ms), Err((0, MarketConfigIssue::IndexMismatch)));
    // within one market, a blank base is reported before a bad index
    let ms2 = vec![listing(3, "\t", "USDT")];
    assert_eq!(check_markets_config(&ms2), Err((0, MarketConfigIssue::EmptyBase)));
}

#[test]
fn reversed_pair_is_not_a_duplicate() {
    let ms = vec![listing(0, "BTC", "USDT"), listing(1, "USDT", "BTC")];
    assert!(validate_markets_config(&ms));
}

#[test]
fn config_from_settings() {
    let c = Config::from_settings("postgres://db".to_string(), None).expect("default limit");
    assert_eq!(c.max_connections, 5);
    assert_eq!(c.database_url, "postgres://db");
    let c = Config::from_settings("u".to_string(), Some("12".to_string())).expect("a number");
    assert_eq!(c.max_connections, 12);
    assert!(Config::from_settings("u".to_string(), Some("twelve".to_string())).is_none());
    assert!(Config::from_settings("u".to_string(), Some("-1".to_string())).is_none());
    assert!(Config::from_settings("u".to_string(), Some("".to_string())).is_none());
    assert!(Config::from_settings("u".to_string(), Some(" 5".to_string())).is_none());
    assert!(Config::from_settings("u".to_string(), Some("4294967296".to_string())).is_none());
    let c = Config::from_settings("u".to_string(), Some("+7".to_string())).expect("signed");
    assert_eq!(c.max_connections, 7);
    let c = Config::from_settings("u".to_string(), Some("4294967295".to_string())).expect("max");
    assert_eq!(c.max_connections, u32::MAX);
}

#[test]
fn symbols_and_listings() {
    assert_eq!(market_symbol(&"BTC".to_string(), &"USDT".to_string()), "BTC-USDT");
    let ms = vec![MarketWithAssets {
        id: 11,
        base: "ETH".to_string(),
        quote: "USDC".to_string(),
        market_index: 1,
        is_active: true,
        tick_size: 1,
        lot_size: 10,
        min_notional: 1000,
        price_scale: 2,
        qty_scale: 4,
    }];
    let infos = markets_reply(ms);
    assert_eq!(infos.len(), 1);
    assert_eq!(infos[0].symbol, "ETH-USDC");
    assert_eq!(infos[0].id, 11);
    assert_eq!(infos[0].market_index, 1);
    assert_eq!(infos[0].lot_size, 10);
    assert_eq!(infos[0].qty_scale, 4);
    let markets = vec![
        Market {
            id: 3,
            base_asset_id: 1,
            quote_asset_id: 2,
            market_index: 0,
            tick_size: 1,
            lot_size: 1,
            min_notional: 10,
            price_scale: 2,
            qty_scale: 4,
            is_active: true,
        },
        Market {
            id: 4,
            base_asset_id: 3,
            quote_asset_id: 2,
            market_index: 1,
            tick_size: 1,
            lot_size: 1,
            min_notional: 10,
            price_scale: 2,
            qty_scale: 4,
            is_active: false,
        },
    ];
    assert_eq!(
        markets_ids_reply(markets),
        vec![MarketIdEntry { id: 3, market_index: 0 }, MarketIdEntry { id: 4, market_index: 1 }]
    );
}

#[test]
fn service_holds_its_repository() {
    let _service = MarketsService::new(Arc::new(7u32));
}

#[test]
fn errors_map_to_statuses() {
    let s = ProgramError::NotFound("market 9".to_string()).to_status();
    assert_eq!(s.code, StatusCode::NotFound);
    assert_eq!(s.message, "Resource not found");
    let s = ProgramError::Validation("bad tick".to_string()).to_status();
    assert_eq!(s.code, StatusCode::InvalidArgument);
    assert_eq!(s.message, "bad tick");
    let s = ProgramError::Database("connection reset".to_string()).to_status();
    assert_eq!(s.code, StatusCode::Internal);
    assert_eq!(s.message, "Failed to process request");
}
