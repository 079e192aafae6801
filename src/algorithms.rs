use crate::ip_hash::{client_hash, index_for_hash, ip_hash_index, IPHash};
use crate::least_connection::{after_close, after_open, count_in, least_pick, LeastConnection};
use crate::random::{random_below, Random};
use crate::request::{opt_view, ClientAddress, RequestInfo};
use crate::config::Backend;
use crate::round_robin::{rr_next, RoundRobin};
use crate::sticky_cookie::{set_cookie_text, sticky_target, sticky_value, StickyCookie};
use vstd::prelude::*;

verus! {

/// What a strategy sees of a request besides its headers: who sent it and
/// which upstream addresses are selectable for it, in pool order.
#[derive(Debug)]
pub struct Context {
    pub client_address: ClientAddress,
    pub backend_addresses: Vec<String>,
}

/// The upstream address chosen for a request, and the `Set-Cookie` value
/// that is to be appended to its response, if any.
#[derive(Debug)]
pub struct RequestForwarder {
    pub backend_address: String,
    pub set_cookie: Option<String>,
}

impl RequestForwarder {
    /// Forwards to `address` and leaves the response as it is.
    pub fn new(address: &String) -> (r: RequestForwarder)
        ensures
            r.backend_address@ == address@,
            r.set_cookie is None,
    {
        RequestForwarder { backend_address: address.clone(), set_cookie: None }
    }

    /// The URI of the upstream request: plain HTTP to the chosen address,
    /// with the incoming request's path and query.
    pub fn backend_uri(&self, path_and_query: &str) -> (r: String)
        ensures
            r@ == seq!['h', 't', 't', 'p', ':', '/', '/'] + self.backend_address@ + path_and_query@,
    {
        proof {
            reveal_strlit("http://");
        }
        String::from_str("http://").concat(self.backend_address.as_str()).concat(path_and_query)
    }

    /// The same forwarder, with `set_cookie` to be appended to the response.
    pub fn map_response(self, set_cookie: String) -> (r: RequestForwarder)
        ensures
            r.backend_address == self.backend_address,
            r.set_cookie == Some(set_cookie),
    {
        RequestForwarder { backend_address: self.backend_address, set_cookie: Some(set_cookie) }
    }
}

/// Whether `a` is the address at position `i` of `addrs`.
pub open spec fn names_address(addrs: Seq<String>, i: int, a: Seq<char>) -> bool {
    0 <= i < addrs.len() && addrs[i]@ == a
}

pub open spec fn round_robin_name() -> Seq<char> {
    seq!['R', 'o', 'u', 'n', 'd', 'R', 'o', 'b', 'i', 'n']
}

pub open spec fn random_name() -> Seq<char> {
    seq!['R', 'a', 'n', 'd', 'o', 'm']
}

pub open spec fn least_connection_name() -> Seq<char> {
    seq!['L', 'e', 'a', 's', 't', 'C', 'o', 'n', 'n', 'e', 'c', 't', 'i', 'o', 'n']
}

pub open spec fn ip_hash_name() -> Seq<char> {
    seq!['I', 'P', 'H', 'a', 's', 'h']
}

/// Chooses one of `servers` as a new strategy named `balance_strategy`
/// would for its first request from `client`: round robin and least
/// connection take the first, IP hashing the one at the client's hash,
/// random any. An unknown name, a strategy that needs more than a name
/// (sticky cookies), or no servers give `None`.
pub fn select_server(servers: &Vec<Backend>, balance_strategy: &str, client: &ClientAddress) -> (r:
    Option<usize>)
    ensures
        servers@.len() == 0 ==> r is None,
        servers@.len() > 0 ==> {
            if balance_strategy@ == round_robin_name() || balance_strategy@ == least_connection_name() {
                r == Some(0usize)
            } else if balance_strategy@ == ip_hash_name() {
                r matches Some(i) && i as int == ip_hash_index(client.ip@, servers@.len())
            } else if balance_strategy@ == random_name() {
                r matches Some(i) && i < servers@.len()
            } else {
                r is None
            }
        },
{
    let n = servers.len();
    if n == 0 {
        return None;
    }
    let name = String::from_str(balance_strategy);
    let rr = String::from_str("RoundRobin");
    let lc = String::from_str("LeastConnection");
    let ih = String::from_str("IPHash");
    let rd = String::from_str("Random");
    proof {
        reveal_strlit("RoundRobin");
        reveal_strlit("LeastConnection");
        reveal_strlit("IPHash");
        reveal_strlit("Random");
        assert(rr@ =~= round_robin_name());
        assert(lc@ =~= least_connection_name());
        assert(ih@ =~= ip_hash_name());
        assert(rd@ =~= random_name());
    }
    if name == rr || name == lc {
        Some(0)
    } else if name == ih {
        Some(index_for_hash(client_hash(client), n))
    } else if name == rd {
        Some(random_below(n))
    } else {
        None
    }
}

/// A backend pool's way of choosing among its selectable addresses.
pub enum LoadBalancingStrategy {
    RoundRobin(RoundRobin),
    Random(Random),
    IPHash(IPHash),
    LeastConnection(LeastConnection),
    StickyCookie(StickyCookie),
}

/// Well-formedness of a strategy that is not sticky.
pub open spec fn base_wf(s: LoadBalancingStrategy) -> bool {
    match s {
        LoadBalancingStrategy::LeastConnection(l) => l.wf(),
        LoadBalancingStrategy::StickyCookie(_) => false,
        _ => true,
    }
}

/// Whether a selection of `addr` among `addrs` for a client at `ip`, which
/// took a strategy that is not sticky from `before` to `after`, is one that
/// the strategy makes.
pub open spec fn strategy_outcome(
    before: LoadBalancingStrategy,
    after: LoadBalancingStrategy,
    ip: Seq<u8>,
    addrs: Seq<String>,
    addr: Seq<char>,
) -> bool {
    match before {
        LoadBalancingStrategy::RoundRobin(rr) => {
            &&& after is RoundRobin
            &&& after->RoundRobin_0.counter() == rr_next(rr.counter())
            &&& names_address(addrs, rr.counter() as int % addrs.len() as int, addr)
        },
        LoadBalancingStrategy::Random(_) => after == before && exists|i: int|
            names_address(addrs, i, addr),
        LoadBalancingStrategy::IPHash(_) => after == before && names_address(
            addrs,
            ip_hash_index(ip, addrs.len()),
            addr,
        ),
        LoadBalancingStrategy::LeastConnection(lc) => after == before && least_pick(lc@, addrs, addr),
        LoadBalancingStrategy::StickyCookie(_) => false,
    }
}

/// IP hashing is stable: it keeps no state, and any two selections for the
/// same client IP among the same addresses choose the same address.
pub proof fn lemma_ip_hash_stable(
    before: LoadBalancingStrategy,
    after: LoadBalancingStrategy,
    again: LoadBalancingStrategy,
    ip: Seq<u8>,
    addrs: Seq<String>,
    first: Seq<char>,
    second: Seq<char>,
)
    requires
        before is IPHash,
        strategy_outcome(before, after, ip, addrs, first),
        strategy_outcome(after, again, ip, addrs, second),
    ensures
        after == before,
        again == before,
        first == second,
{
}

/// Whether forwarder `r`, which took strategy `before` to `after`, is a
/// selection that the strategy makes for a request with `Cookie` header
/// `cookie` from a client at `ip`, among `addrs`.
pub open spec fn selection_outcome(
    before: LoadBalancingStrategy,
    after: LoadBalancingStrategy,
    cookie: Option<Seq<char>>,
    ip: Seq<u8>,
    addrs: Seq<String>,
    r: RequestForwarder,
) -> bool {
    match before {
        LoadBalancingStrategy::StickyCookie(sc) => {
            &&& after is StickyCookie
            &&& after->StickyCookie_0.cookie_name == sc.cookie_name
            &&& after->StickyCookie_0.http_only == sc.http_only
            &&& after->StickyCookie_0.secure == sc.secure
            &&& after->StickyCookie_0.same_site == sc.same_site
            &&& match sticky_target(sticky_value(cookie, sc.cookie_name@), addrs) {
                Some(i) => {
                    &&& names_address(addrs, i, r.backend_address@)
                    &&& r.set_cookie is None
                    &&& after->StickyCookie_0.inner == sc.inner
                },
                None => {
                    &&& strategy_outcome(
                        *sc.inner,
                        *after->StickyCookie_0.inner,
                        ip,
                        addrs,
                        r.backend_address@,
                    )
                    &&& r.set_cookie matches Some(c) && c@ == set_cookie_text(
                        sc.cookie_name@,
                        r.backend_address@,
                        sc.http_only,
                        sc.secure,
                        sc.same_site,
                    )
                },
            }
        },
        _ => strategy_outcome(before, after, ip, addrs, r.backend_address@) && r.set_cookie is None,
    }
}

impl LoadBalancingStrategy {
    pub open spec fn wf(&self) -> bool {
        match self {
            LoadBalancingStrategy::StickyCookie(sc) => base_wf(*sc.inner),
            _ => base_wf(*self),
        }
    }

    /// Selection by a strategy that is not sticky.
    pub fn select_plain(&mut self, request: &RequestInfo, context: &Context) -> (r: RequestForwarder)
        requires
            base_wf(*old(self)),
            context.backend_addresses@.len() > 0,
        ensures
            base_wf(*final(self)),
            strategy_outcome(
                *old(self),
                *final(self),
                context.client_address.ip@,
                context.backend_addresses@,
                r.backend_address@,
            ),
            r.set_cookie is None,
    {
        match self {
            LoadBalancingStrategy::RoundRobin(rr) => rr.select_backend(request, context),
            LoadBalancingStrategy::Random(rd) => rd.select_backend(request, context),
            LoadBalancingStrategy::IPHash(ih) => ih.select_backend(request, context),
            LoadBalancingStrategy::LeastConnection(lc) => lc.select_backend(request, context),
            LoadBalancingStrategy::StickyCookie(_) => {
                // Excluded by `base_wf`.
                assert(false);
                RequestForwarder::new(&context.backend_addresses[0])
            },
        }
    }

    /// Chooses the upstream address for a request among the selectable ones.
    pub fn select_backend(&mut self, request: &RequestInfo, context: &Context) -> (r: RequestForwarder)
        requires
            old(self).wf(),
            context.backend_addresses@.len() > 0,
        ensures
            final(self).wf(),
            selection_outcome(
                *old(self),
                *final(self),
                opt_view(request.cookie),
                context.client_address.ip@,
                context.backend_addresses@,
                r,
            ),
    {
        match self {
            LoadBalancingStrategy::StickyCookie(sc) => sc.select_backend(request, context),
            _ => self.select_plain(request, context),
        }
    }

    /// Counts an opened connection in a strategy that is not sticky.
    fn opened_plain(&mut self, authority: &str)
        requires
            base_wf(*old(self)),
        ensures
            base_wf(*final(self)),
            counters(*final(self)) == match counters(*old(self)) {
                Some(m) => Some(
                    if count_in(m, authority@) < usize::MAX {
                        after_open(m, authority@)
                    } else {
                        m
                    },
                ),
                None => None,
            },
    {
        match self {
            LoadBalancingStrategy::LeastConnection(lc) => {
                if lc.connection_count(authority) < usize::MAX {
                    lc.on_tcp_open(authority);
                }
            },
            _ => {},
        }
    }

    /// Counts a closed connection in a strategy that is not sticky.
    fn closed_plain(&mut self, authority: &str)
        requires
            base_wf(*old(self)),
        ensures
            base_wf(*final(self)),
            counters(*final(self)) == match counters(*old(self)) {
                Some(m) => Some(after_close(m, authority@)),
                None => None,
            },
    {
        match self {
            LoadBalancingStrategy::LeastConnection(lc) => lc.on_tcp_close(authority),
            _ => {},
        }
    }

    /// Records that an upstream connection to `authority` opened.
    pub fn on_tcp_open(&mut self, authority: &str)
        requires
            old(self).wf(),
        ensures
            final(self).wf(),
            counters(*final(self)) == match counters(*old(self)) {
                Some(m) => Some(
                    if count_in(m, authority@) < usize::MAX {
                        after_open(m, authority@)
                    } else {
                        m
                    },
                ),
                None => None,
            },
    {
        match self {
            LoadBalancingStrategy::LeastConnection(lc) => {
                if lc.connection_count(authority) < usize::MAX {
                    lc.on_tcp_open(authority);
                }
            },
            LoadBalancingStrategy::StickyCookie(sc) => sc.inner.opened_plain(authority),
            _ => {},
        }
    }

    /// Records that an upstream connection to `authority` closed.
    pub fn on_tcp_close(&mut self, authority: &str)
        requires
            old(self).wf(),
        ensures
            final(self).wf(),
            counters(*final(self)) == match counters(*old(self)) {
                Some(m) => Some(after_close(m, authority@)),
                None => None,
            },
    {
        match self {
            LoadBalancingStrategy::LeastConnection(lc) => lc.on_tcp_close(authority),
            LoadBalancingStrategy::StickyCookie(sc) => sc.inner.closed_plain(authority),
            _ => {},
        }
    }
}

/// The open-connection counters that a strategy keeps, if it keeps any.
pub open spec fn counters(s: LoadBalancingStrategy) -> Option<Map<Seq<char>, nat>> {
    match s {
        LoadBalancingStrategy::LeastConnection(l) => Some(l@),
        LoadBalancingStrategy::StickyCookie(sc) => match *sc.inner {
            LoadBalancingStrategy::LeastConnection(l) => Some(l@),
            _ => None,
        },
        _ => None,
    }
}

} // verus!
