//! The life of the balancer above the pools: the loop that accepts inbound
//! connections, and the handling of each accepted connection.

pub mod load_balancer;
pub mod session;
