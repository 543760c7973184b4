//! The values the balancer works on: backend identities, session records and
//! the interface of the connection pools.

pub mod backend_conn;
pub mod ident;
pub mod request;
pub mod tcp_conn_pool;
