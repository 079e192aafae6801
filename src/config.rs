use vstd::prelude::*;

verus! {

/// A load balancer configuration: where it listens and its upstreams.
#[derive(Debug, Clone)]
pub struct Config {
    pub bind_address: String,
    pub backends: Backends,
}

/// The upstream servers of a configuration.
#[derive(Debug, Clone)]
pub struct Backends {
    pub server: Vec<Backend>,
}

/// One upstream server.
#[derive(Debug, Clone)]
pub struct Backend {
    pub ip: String,
    pub port: u16,
}

} // verus!
