pub mod config;
pub mod error;
pub mod models;
pub mod service;
