//! The settings of one balancer.

use crate::config::router_map::{has_route, RouterMap};
use vstd::prelude::*;

verus! {

/// The settings as the contracts see them.
pub struct Settings {
    pub listen_addr: Option<Seq<char>>,
    /// The deadline of each relay, in seconds.
    pub request_timeout: u64,
    /// The backend behind each inbound address.
    pub routes: Option<Map<Seq<char>, Seq<char>>>,
    pub built: bool,
}

impl Settings {
    /// Nothing that a balancer needs is missing: there is an address to
    /// listen on, and there is at least one route to a backend.
    pub open spec fn complete(self) -> bool {
        &&& self.listen_addr is Some
        &&& self.routes is Some
        &&& has_route(self.routes->0)
    }
}

/// The settings of one balancer: where it listens, how long a relay may
/// take, and which backends it serves. The settings are put together piece
/// by piece and then built, which marks them as ready for a start.
#[derive(Debug, Clone)]
pub struct AppConfig {
    /// The address to listen on.
    pub listen_addr: Option<String>,
    /// The deadline of each relay, in seconds.
    pub request_timout_sec: u64,
    /// The routes to the backends.
    pub router_map: Option<RouterMap>,
    is_built: bool,
}

impl View for AppConfig {
    type V = Settings;

    closed spec fn view(&self) -> Settings {
        Settings {
            listen_addr: match self.listen_addr {
                Some(address) => Some(address@),
                None => None,
            },
            request_timeout: self.request_timout_sec,
            routes: match self.router_map {
                Some(routes) => Some(routes@),
                None => None,
            },
            built: self.is_built,
        }
    }
}

impl AppConfig {
    /// Settings with no listener and no routes, and a deadline of thirty
    /// seconds.
    pub fn new() -> (config: AppConfig)
        ensures
            config@ == (Settings {
                listen_addr: None,
                request_timeout: 30,
                routes: None,
                built: false,
            }),
    {
        AppConfig { listen_addr: None, request_timout_sec: 30, router_map: None, is_built: false }
    }

    /// Sets the routes.
    pub fn router(&mut self, router_map: RouterMap)
        ensures
            final(self)@ == (Settings { routes: Some(router_map@), ..old(self)@ }),
    {
        self.router_map = Some(router_map);
    }

    /// Sets the address to listen on.
    pub fn listener(&mut self, listen_addr: String)
        ensures
            final(self)@ == (Settings { listen_addr: Some(listen_addr@), ..old(self)@ }),
    {
        self.listen_addr = Some(listen_addr);
    }

    /// Sets the deadline of each relay, in seconds.
    pub fn request_timeout(&mut self, timeout_secs: u64)
        ensures
            final(self)@ == (Settings { request_timeout: timeout_secs, ..old(self)@ }),
    {
        self.request_timout_sec = timeout_secs;
    }

    /// Marks the settings as ready. They have to be complete: a balancer
    /// must not start without an address to listen on or without a backend.
    pub fn build(&mut self)
        requires
            old(self)@.complete(),
        ensures
            final(self)@ == (Settings { built: true, ..old(self)@ }),
    {
        self.is_built = true;
    }

    /// Whether the settings are complete, so that they can be built.
    pub fn is_complete(&self) -> (complete: bool)
        ensures
            complete == self@.complete(),
    {
        match (&self.listen_addr, &self.router_map) {
            (Some(_), Some(routes)) => !routes.is_empty(),
            _ => false,
        }
    }

    /// Whether the settings have been built.
    pub fn is_built(&self) -> (built: bool)
        ensures
            built == self@.built,
    {
        self.is_built
    }
}

} // verus!
