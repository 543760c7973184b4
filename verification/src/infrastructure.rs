//! The three connection pools.

pub mod fast_tcp_pool;
pub mod smart_tcp_pool;
pub mod tcp_round_pool;
