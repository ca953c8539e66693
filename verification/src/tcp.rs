//! The upload protocol between clients and the storage daemon.

pub mod buffer_pool;
pub mod client;
pub mod message;
pub mod session;
pub mod transfer;
