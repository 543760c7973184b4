//! The configuration that a balancer is started with.

pub mod app;
pub mod router_map;
