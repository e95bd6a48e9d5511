pub mod asset;
pub mod book_laws;
pub mod config;
pub mod error;
pub mod matching_engine;
pub mod message_handler;
pub mod order;
pub mod order_at_price;
pub mod orderbook;
pub mod request;
pub mod transport;
