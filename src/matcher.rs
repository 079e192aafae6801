use vstd::prelude::*;

verus! {

/// A predicate over a request's `Host` header that selects a backend pool.
#[derive(Debug)]
pub enum BackendPoolMatcher {
    Host(String),
    And(Box<BackendPoolMatcher>, Box<BackendPoolMatcher>),
    Or(Box<BackendPoolMatcher>, Box<BackendPoolMatcher>),
}

/// Whether matcher `m` accepts a request whose `Host` header is `host`.
pub open spec fn matcher_accepts(m: BackendPoolMatcher, host: Option<Seq<char>>) -> bool
    decreases m,
{
    match m {
        BackendPoolMatcher::Host(h) => host == Some(h@),
        BackendPoolMatcher::And(a, b) => matcher_accepts(*a, host) && matcher_accepts(*b, host),
        BackendPoolMatcher::Or(a, b) => matcher_accepts(*a, host) || matcher_accepts(*b, host),
    }
}

/// Structural equality of matchers, by the hosts they name.
pub open spec fn matcher_same(m: BackendPoolMatcher, n: BackendPoolMatcher) -> bool
    decreases m,
{
    match (m, n) {
        (BackendPoolMatcher::Host(a), BackendPoolMatcher::Host(b)) => a@ == b@,
        (BackendPoolMatcher::And(a1, b1), BackendPoolMatcher::And(a2, b2)) => matcher_same(*a1, *a2)
            && matcher_same(*b1, *b2),
        (BackendPoolMatcher::Or(a1, b1), BackendPoolMatcher::Or(a2, b2)) => matcher_same(*a1, *a2)
            && matcher_same(*b1, *b2),
        _ => false,
    }
}

impl BackendPoolMatcher {
    /// Whether this matcher accepts a request with the given `Host` header.
    pub fn matches(&self, host: &Option<String>) -> (r: bool)
        ensures
            r == matcher_accepts(*self, crate::request::opt_view(*host)),
        decreases self,
    {
        match self {
            BackendPoolMatcher::Host(h) => match host {
                Some(x) => *x == *h,
                None => false,
            },
            BackendPoolMatcher::And(a, b) => a.matches(host) && b.matches(host),
            BackendPoolMatcher::Or(a, b) => a.matches(host) || b.matches(host),
        }
    }

    /// Structural equality of two matchers.
    pub fn same_as(&self, other: &BackendPoolMatcher) -> (r: bool)
        ensures
            r == matcher_same(*self, *other),
        decreases self,
    {
        match (self, other) {
            (BackendPoolMatcher::Host(a), BackendPoolMatcher::Host(b)) => *a == *b,
            (BackendPoolMatcher::And(a1, b1), BackendPoolMatcher::And(a2, b2)) => a1.same_as(a2)
                && b1.same_as(b2),
            (BackendPoolMatcher::Or(a1, b1), BackendPoolMatcher::Or(a2, b2)) => a1.same_as(a2)
                && b1.same_as(b2),
            _ => false,
        }
    }
}

} // verus!
