pub mod common;
pub mod engine;
pub mod gateway;
pub mod transport;
pub mod markets;
