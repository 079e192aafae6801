use crate::algorithms::LoadBalancingStrategy;
use crate::health::{HealthConfig, Healthiness};
use crate::matcher::BackendPoolMatcher;
use crate::middleware::MiddlewareChain;
use crate::request::Scheme;
use crate::server::BackendPool;
use vstd::prelude::*;

verus! {

/// Collects a backend pool's parts and its upstream client settings.
pub struct BackendPoolBuilder {
    matcher: BackendPoolMatcher,
    addresses: Vec<(String, Healthiness)>,
    health_config: HealthConfig,
    strategy: LoadBalancingStrategy,
    chain: MiddlewareChain,
    schemes: Vec<Scheme>,
    pool_idle_timeout: Option<u64>,
    pool_max_idle_per_host: Option<usize>,
}

impl BackendPoolBuilder {
    pub closed spec fn spec_idle_timeout(&self) -> Option<u64> {
        self.pool_idle_timeout
    }

    pub closed spec fn spec_max_idle(&self) -> Option<usize> {
        self.pool_max_idle_per_host
    }

    /// The pool that `build` makes, but for the client settings.
    pub closed spec fn parts(&self) -> (
        BackendPoolMatcher,
        Seq<(String, Healthiness)>,
        HealthConfig,
        LoadBalancingStrategy,
        MiddlewareChain,
        Seq<Scheme>,
    ) {
        (
            self.matcher,
            self.addresses@,
            self.health_config,
            self.strategy,
            self.chain,
            self.schemes@,
        )
    }

    pub fn new(
        matcher: BackendPoolMatcher,
        addresses: Vec<(String, Healthiness)>,
        health_config: HealthConfig,
        strategy: LoadBalancingStrategy,
        chain: MiddlewareChain,
        schemes: Vec<Scheme>,
    ) -> (r: BackendPoolBuilder)
        ensures
            r.parts() == (matcher, addresses@, health_config, strategy, chain, schemes@),
            r.spec_idle_timeout() is None,
            r.spec_max_idle() is None,
    {
        BackendPoolBuilder {
            matcher,
            addresses,
            health_config,
            strategy,
            chain,
            schemes,
            pool_idle_timeout: None,
            pool_max_idle_per_host: None,
        }
    }

    /// Sets how long idle upstream connections are kept, in milliseconds.
    pub fn pool_idle_timeout(&mut self, duration_ms: u64) -> (r: &BackendPoolBuilder)
        ensures
            final(self).parts() == old(self).parts(),
            final(self).spec_idle_timeout() == Some(duration_ms),
            final(self).spec_max_idle() == old(self).spec_max_idle(),
    {
        self.pool_idle_timeout = Some(duration_ms);
        self
    }

    /// Sets how many idle upstream connections are kept per host.
    pub fn pool_max_idle_per_host(&mut self, max_idle: usize) -> (r: &BackendPoolBuilder)
        ensures
            final(self).parts() == old(self).parts(),
            final(self).spec_idle_timeout() == old(self).spec_idle_timeout(),
            final(self).spec_max_idle() == Some(max_idle),
    {
        self.pool_max_idle_per_host = Some(max_idle);
        self
    }

    /// The pool with the collected parts and client settings.
    pub fn build(self) -> (r: BackendPool)
        ensures
            (r.matcher, r.addresses@, r.health_config, r.strategy, r.chain, r.schemes@) == self.parts(),
            r.pool_idle_timeout_ms == self.spec_idle_timeout(),
            r.pool_max_idle_per_host == self.spec_max_idle(),
    {
        BackendPool {
            matcher: self.matcher,
            addresses: self.addresses,
            health_config: self.health_config,
            strategy: self.strategy,
            chain: self.chain,
            schemes: self.schemes,
            pool_idle_timeout_ms: self.pool_idle_timeout,
            pool_max_idle_per_host: self.pool_max_idle_per_host,
        }
    }
}

} // verus!
