pub mod error;
pub mod mock_api;
pub mod new_order;
pub mod publisher;
pub mod publisher_service;
pub mod service;
pub mod types;
