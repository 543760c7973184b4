//! A layer-4 TCP load balancer, written as a set of verified state machines.
//!
//! The crate holds every decision the balancer makes (which backend serves a
//! request, whether an idle connection is reused or a new one is opened, how a
//! proxied session ends) and leaves the sockets to its caller. Each pool and
//! each session is a value that is driven by events and answers with the next
//! action to perform.

pub mod config;
pub mod domain;
pub mod infrastructure;
pub mod proxy;
pub mod text;
