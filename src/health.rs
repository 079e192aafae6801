use vstd::prelude::*;

verus! {

/// The latest health classification of one upstream address.
#[derive(Debug, Clone, Copy, PartialEq, Eq, Structural)]
pub enum Healthiness {
    Healthy,
    /// Answered, but slower than the pool's threshold; the latency in ms.
    Slow(u64),
    Unresponsive,
}

/// How a pool's addresses are probed and classified.
#[derive(Debug, Clone)]
pub struct HealthConfig {
    /// Latency in ms up to which an answer counts as healthy.
    pub slow_threshold: u64,
    /// Latency in ms after which a probe counts as failed.
    pub timeout: u64,
    /// The path that is requested.
    pub path: String,
}

/// The classification of one probe: `status` is the HTTP status that came
/// back, if any, and `elapsed_ms` the time it took.
pub open spec fn classification(status: Option<u16>, elapsed_ms: u64, slow: u64, timeout: u64) -> Healthiness {
    match status {
        Some(s) => if 200 <= s < 300 && elapsed_ms <= slow {
            Healthiness::Healthy
        } else if 200 <= s < 300 && elapsed_ms <= timeout {
            Healthiness::Slow(elapsed_ms)
        } else {
            Healthiness::Unresponsive
        },
        None => Healthiness::Unresponsive,
    }
}

impl HealthConfig {
    /// Classifies one probe of an address: a 2xx answer within the slow
    /// threshold is healthy, one within the timeout is slow, anything else
    /// (no answer, another status, too late) is unresponsive.
    pub fn classify(&self, status: Option<u16>, elapsed_ms: u64) -> (r: Healthiness)
        ensures
            r == classification(status, elapsed_ms, self.slow_threshold, self.timeout),
    {
        match status {
            Some(s) => {
                if 200 <= s && s < 300 && elapsed_ms <= self.slow_threshold {
                    Healthiness::Healthy
                } else if 200 <= s && s < 300 && elapsed_ms <= self.timeout {
                    Healthiness::Slow(elapsed_ms)
                } else {
                    Healthiness::Unresponsive
                }
            },
            None => Healthiness::Unresponsive,
        }
    }
}

} // verus!
