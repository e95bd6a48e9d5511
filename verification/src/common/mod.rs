pub mod create_order;
pub mod dto;
pub mod error;
pub mod mem_pool;
pub mod message;
pub mod messages;
pub mod models;
pub mod new_order;
pub mod queue;
pub mod queue_error;
pub mod types;
pub mod wire;
