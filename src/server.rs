use crate::acme::{challenge_prefix, last_segment, proof_from, AcmeHandler};
use crate::algorithms::{selection_outcome, Context, LoadBalancingStrategy, RequestForwarder};
use crate::health::{HealthConfig, Healthiness};
use crate::matcher::{matcher_accepts, BackendPoolMatcher};
use crate::middleware::{step_outcome, MiddlewareChain, MiddlewareStep};
use crate::reply::{bad_gateway, not_found, Reply};
use crate::request::{opt_view, ClientAddress, RequestInfo, Scheme};
use crate::text::occurs_at;
use vstd::prelude::*;

verus! {

/// A routing target: the requests its matcher accepts on its schemes go to
/// one of its addresses, chosen by its strategy, through its middlewares.
pub struct BackendPool {
    pub matcher: BackendPoolMatcher,
    /// Each upstream address ("host:port") with its latest health.
    pub addresses: Vec<(String, Healthiness)>,
    pub health_config: HealthConfig,
    pub strategy: LoadBalancingStrategy,
    pub chain: MiddlewareChain,
    pub schemes: Vec<Scheme>,
    /// How long an idle upstream connection is kept, in milliseconds.
    pub pool_idle_timeout_ms: Option<u64>,
    /// How many idle upstream connections are kept per host.
    pub pool_max_idle_per_host: Option<usize>,
}

impl BackendPool {
    pub open spec fn wf(&self) -> bool {
        self.strategy.wf() && self.chain.wf()
    }

    /// Whether the pool serves requests that arrive on `scheme`.
    pub fn supports(&self, scheme: Scheme) -> (r: bool)
        ensures
            r == self.schemes@.contains(scheme),
    {
        let mut i: usize = 0;
        while i < self.schemes.len()
            invariant
                i <= self.schemes@.len(),
                forall|j: int| 0 <= j < i ==> self.schemes@[j] != scheme,
            decreases self.schemes@.len() - i,
        {
            if self.schemes[i] == scheme {
                return true;
            }
            i = i + 1;
        }
        false
    }

    /// Two pools are the same routing target when their matchers are equal.
    pub fn same_target(&self, other: &BackendPool) -> (r: bool)
        ensures
            r == crate::matcher::matcher_same(self.matcher, other.matcher),
    {
        self.matcher.same_as(&other.matcher)
    }
}

/// Whether pool `p` takes a request with `Host` header `host` on `scheme`.
pub open spec fn pool_accepts(p: BackendPool, host: Option<Seq<char>>, scheme: Scheme) -> bool {
    p.schemes@.contains(scheme) && matcher_accepts(p.matcher, host)
}

/// The addresses of `s`, in order, that are healthy (`slow` false) or slow
/// (`slow` true).
pub open spec fn with_health(s: Seq<(String, Healthiness)>, slow: bool) -> Seq<Seq<char>>
    decreases s.len(),
{
    if s.len() == 0 {
        Seq::empty()
    } else {
        with_health(s.drop_last(), slow) + if (slow && s.last().1 is Slow) || (!slow
            && s.last().1 is Healthy) {
            seq![s.last().0@]
        } else {
            Seq::empty()
        }
    }
}

/// The addresses a request may go to: the healthy ones, or where there are
/// none the slow ones.
pub open spec fn selectable(s: Seq<(String, Healthiness)>) -> Seq<Seq<char>> {
    if with_health(s, false).len() > 0 {
        with_health(s, false)
    } else {
        with_health(s, true)
    }
}

pub open spec fn address_views(s: Seq<String>) -> Seq<Seq<char>> {
    s.map_values(|a: String| a@)
}

fn collect_with_health(addresses: &Vec<(String, Healthiness)>, slow: bool) -> (r: Vec<String>)
    ensures
        address_views(r@) == with_health(addresses@, slow),
{
    let mut r: Vec<String> = Vec::new();
    let mut i: usize = 0;
    while i < addresses.len()
        invariant
            i <= addresses@.len(),
            address_views(r@) == with_health(addresses@.take(i as int), slow),
        decreases addresses@.len() - i,
    {
        let ghost before = r@;
        let h = addresses[i].1;
        let keep = match h {
            Healthiness::Healthy => !slow,
            Healthiness::Slow(_) => slow,
            Healthiness::Unresponsive => false,
        };
        if keep {
            r.push(addresses[i].0.clone());
        }
        assert(addresses@.take(i + 1).drop_last() =~= addresses@.take(i as int));
        assert(address_views(r@) =~= with_health(addresses@.take(i + 1), slow));
        i = i + 1;
    }
    assert(addresses@.take(i as int) =~= addresses@);
    r
}

/// The addresses of a pool that its strategy may choose from.
pub fn selectable_addresses(pool: &BackendPool) -> (r: Vec<String>)
    ensures
        address_views(r@) == selectable(pool.addresses@),
{
    let healthy = collect_with_health(&pool.addresses, false);
    if healthy.len() > 0 {
        healthy
    } else {
        collect_with_health(&pool.addresses, true)
    }
}

proof fn lemma_with_health_sources(s: Seq<(String, Healthiness)>, slow: bool)
    ensures
        forall|k: int|
            0 <= k < with_health(s, slow).len() ==> exists|i: int|
                0 <= i < s.len() && s[i].0@ == #[trigger] with_health(s, slow)[k] && !(
                s[i].1 is Unresponsive),
    decreases s.len(),
{
    if s.len() > 0 {
        let p = s.drop_last();
        lemma_with_health_sources(p, slow);
        let w = with_health(s, slow);
        assert forall|k: int| 0 <= k < w.len() implies exists|i: int|
            0 <= i < s.len() && s[i].0@ == #[trigger] w[k] && !(s[i].1 is Unresponsive) by {
            if k < with_health(p, slow).len() {
                let i = choose|i: int|
                    0 <= i < p.len() && p[i].0@ == #[trigger] with_health(p, slow)[k] && !(
                    p[i].1 is Unresponsive);
                assert(s[i] == p[i]);
            } else {
                assert(s[s.len() - 1].0@ == w[k]);
            }
        }
    }
}

/// No strategy is offered an address that is unresponsive: every address
/// that is selectable comes from an entry of the pool whose health is
/// healthy or slow.
pub proof fn lemma_unresponsive_never_selectable(s: Seq<(String, Healthiness)>)
    ensures
        forall|k: int|
            0 <= k < selectable(s).len() ==> exists|i: int|
                0 <= i < s.len() && s[i].0@ == #[trigger] selectable(s)[k] && !(
                s[i].1 is Unresponsive),
{
    lemma_with_health_sources(s, false);
    lemma_with_health_sources(s, true);
    let w = if with_health(s, false).len() > 0 {
        with_health(s, false)
    } else {
        with_health(s, true)
    };
    assert(selectable(s) == w);
    assert forall|k: int| 0 <= k < selectable(s).len() implies exists|i: int|
        0 <= i < s.len() && s[i].0@ == #[trigger] selectable(s)[k] && !(s[i].1 is Unresponsive) by {
        if with_health(s, false).len() > 0 {
            assert(with_health(s, false)[k] == selectable(s)[k]);
        } else {
            assert(with_health(s, true)[k] == selectable(s)[k]);
        }
    }
}

/// The first pool from position `i` on that takes a request.
pub open spec fn first_pool_from(
    pools: Seq<BackendPool>,
    host: Option<Seq<char>>,
    scheme: Scheme,
    i: int,
) -> Option<int>
    decreases pools.len() - i,
{
    if i < 0 || i >= pools.len() {
        None
    } else if pool_accepts(pools[i], host, scheme) {
        Some(i)
    } else {
        first_pool_from(pools, host, scheme, i + 1)
    }
}

proof fn lemma_first_pool_from(pools: Seq<BackendPool>, host: Option<Seq<char>>, scheme: Scheme, i: int)
    requires
        0 <= i,
    ensures
        match first_pool_from(pools, host, scheme, i) {
            Some(p) => i <= p < pools.len() && pool_accepts(pools[p], host, scheme) && forall|j: int|
                i <= j < p ==> !pool_accepts(#[trigger] pools[j], host, scheme),
            None => forall|j: int| i <= j < pools.len() ==> !pool_accepts(#[trigger] pools[j], host, scheme),
        },
    decreases pools.len() - i,
{
    if i < pools.len() && !pool_accepts(pools[i], host, scheme) {
        lemma_first_pool_from(pools, host, scheme, i + 1);
    }
}

/// The live routing state: the backend pools in order, and the open ACME
/// challenges.
pub struct SharedData {
    pub backend_pools: Vec<BackendPool>,
    pub acme_handler: AcmeHandler,
}

impl SharedData {
    pub open spec fn wf(&self) -> bool {
        forall|i: int| 0 <= i < self.backend_pools@.len() ==> (#[trigger] self.backend_pools@[i]).wf()
    }
}

/// The pool that serves a request: the first one in order whose schemes
/// hold the listener's scheme and whose matcher accepts the request.
pub fn pool_by_req(shared_data: &SharedData, request: &RequestInfo, scheme: Scheme) -> (r: Option<
    usize,
>)
    ensures
        match r {
            Some(i) => first_pool_from(shared_data.backend_pools@, opt_view(request.host), scheme, 0)
                == Some(i as int),
            None => first_pool_from(shared_data.backend_pools@, opt_view(request.host), scheme, 0) is None,
        },
        match r {
            Some(i) => i < shared_data.backend_pools@.len() && pool_accepts(
                shared_data.backend_pools@[i as int],
                opt_view(request.host),
                scheme,
            ) && forall|j: int|
                0 <= j < i ==> !pool_accepts(
                    #[trigger] shared_data.backend_pools@[j],
                    opt_view(request.host),
                    scheme,
                ),
            None => forall|j: int|
                0 <= j < shared_data.backend_pools@.len() ==> !pool_accepts(
                    #[trigger] shared_data.backend_pools@[j],
                    opt_view(request.host),
                    scheme,
                ),
        },
{
    let pools = &shared_data.backend_pools;
    let ghost host = opt_view(request.host);
    proof {
        lemma_first_pool_from(pools@, host, scheme, 0);
    }
    let mut i: usize = 0;
    while i < pools.len()
        invariant
            i <= pools@.len(),
            pools@ == shared_data.backend_pools@,
            host == opt_view(request.host),
            first_pool_from(pools@, host, scheme, 0) == first_pool_from(pools@, host, scheme, i as int),
        decreases pools@.len() - i,
    {
        let supported = pools[i].supports(scheme);
        if supported {
            let accepted = pools[i].matcher.matches(&request.host);
            if accepted {
                assert(pool_accepts(pools@[i as int], host, scheme));
                assert(first_pool_from(pools@, host, scheme, i as int) == Some(i as int));
                proof {
                    lemma_first_pool_from(pools@, host, scheme, 0);
                }
                assert(first_pool_from(pools@, host, scheme, 0) == Some(i as int));
                return Some(i);
            }
        }
        i = i + 1;
    }
    proof {
        lemma_first_pool_from(pools@, host, scheme, 0);
    }
    None
}

/// Pool `b` is pool `a` with, at most, another strategy state.
pub open spec fn same_but_strategy(a: BackendPool, b: BackendPool) -> bool {
    &&& a.matcher == b.matcher
    &&& a.addresses@ == b.addresses@
    &&& a.health_config == b.health_config
    &&& a.chain@ == b.chain@
    &&& a.schemes@ == b.schemes@
    &&& a.pool_idle_timeout_ms == b.pool_idle_timeout_ms
    &&& a.pool_max_idle_per_host == b.pool_max_idle_per_host
}

/// Where a request goes: answered by the balancer itself, or forwarded
/// through the middlewares of a pool (by position) to the chosen upstream.
pub enum Route {
    Respond(Reply),
    Forward(usize, RequestForwarder),
}

/// Whether route `r`, which took the routing state from `before` to
/// `after`, is the dispatch of `request` from `client` on `scheme`.
pub open spec fn route_outcome(
    before: SharedData,
    after: SharedData,
    request: RequestInfo,
    client: ClientAddress,
    scheme: Scheme,
    r: Route,
) -> bool {
    &&& after.acme_handler == before.acme_handler
    &&& after.backend_pools@.len() == before.backend_pools@.len()
    &&& if occurs_at(request.path@, challenge_prefix(), 0) {
        &&& after.backend_pools@ == before.backend_pools@
        &&& match proof_from(before.acme_handler@, last_segment(request.path@), 0) {
            Some(p) => r matches Route::Respond(reply) && reply.status == 200 && reply.body@ == p,
            None => r matches Route::Respond(reply) && reply.status == 404,
        }
    } else {
        match first_pool_from(before.backend_pools@, opt_view(request.host), scheme, 0) {
            None => after.backend_pools@ == before.backend_pools@ && (r matches Route::Respond(reply)
                && reply.status == 404),
            Some(i) => if selectable(before.backend_pools@[i].addresses@).len() == 0 {
                after.backend_pools@ == before.backend_pools@ && (r matches Route::Respond(reply)
                    && reply.status == 502)
            } else {
                &&& r matches Route::Forward(j, f) && j == i && exists|addrs: Seq<String>|
                    address_views(addrs) == selectable(before.backend_pools@[i].addresses@)
                        && selection_outcome(
                        before.backend_pools@[i].strategy,
                        after.backend_pools@[i].strategy,
                        opt_view(request.cookie),
                        client.ip@,
                        addrs,
                        f,
                    )
                &&& same_but_strategy(before.backend_pools@[i], after.backend_pools@[i])
                &&& forall|k: int|
                    0 <= k < before.backend_pools@.len() && k != i ==> after.backend_pools@[k]
                        == before.backend_pools@[k]
            },
        }
    }
}

/// Dispatches a request that arrived on a listener for `scheme` from
/// `client`: an ACME challenge path is answered from the open challenges;
/// otherwise the first pool that takes the request chooses an upstream among
/// its healthy addresses, or its slow ones where none is healthy. No pool
/// gives 404; no selectable address gives 502 without asking the strategy.
pub fn route(shared: &mut SharedData, request: &RequestInfo, client: &ClientAddress, scheme: Scheme) -> (r:
    Route)
    requires
        old(shared).wf(),
    ensures
        final(shared).wf(),
        route_outcome(*old(shared), *final(shared), *request, *client, scheme, r),
{
    if let Some(reply) = shared.acme_handler.respond_to_challenge(request.path.as_str()) {
        return Route::Respond(reply);
    }
    match pool_by_req(shared, request, scheme) {
        Some(i) => {
            let addresses = selectable_addresses(&shared.backend_pools[i]);
            assert(address_views(addresses@).len() == addresses@.len());
            if addresses.len() == 0 {
                return Route::Respond(bad_gateway());
            }
            let ghost before = shared.backend_pools@;
            let mut pool = shared.backend_pools.remove(i);
            assert(pool == before[i as int]);
            assert(pool.wf());
            let context = Context { client_address: client.duplicate(), backend_addresses: addresses };
            let forwarder = pool.strategy.select_backend(request, &context);
            assert(address_views(context.backend_addresses@) == selectable(before[i as int].addresses@));
            assert(same_but_strategy(before[i as int], pool));
            let ghost after_strategy = pool.strategy;
            shared.backend_pools.insert(i, pool);
            assert(selection_outcome(
                before[i as int].strategy,
                after_strategy,
                opt_view(request.cookie),
                client.ip@,
                context.backend_addresses@,
                forwarder,
            ));
            assert(shared.backend_pools@ =~= before.update(i as int, pool));
            assert(forall|k: int|
                0 <= k < before.len() && k != i ==> shared.backend_pools@[k] == before[k]);
            assert(shared.wf()) by {
                assert forall|k: int| 0 <= k < shared.backend_pools@.len() implies (
                #[trigger] shared.backend_pools@[k]).wf() by {
                    if k != i {
                        assert(shared.backend_pools@[k] == before[k]);
                    }
                }
            }
            Route::Forward(i, forwarder)
        },
        None => Route::Respond(not_found()),
    }
}

/// One client connection's view of the balancer: who is connected, on
/// which listener.
pub struct MainService {
    pub client_address: ClientAddress,
    pub scheme: Scheme,
}

impl MainService {
    /// Dispatches one request of this connection on a routing state.
    pub fn call(&self, shared: &mut SharedData, request: &RequestInfo) -> (r: Route)
        requires
            old(shared).wf(),
        ensures
            final(shared).wf(),
            route_outcome(*old(shared), *final(shared), *request, self.client_address, self.scheme, r),
    {
        route(shared, request, &self.client_address, self.scheme)
    }
}

impl SharedData {
    /// Applies middleware `index` of pool `pool` to a request.
    pub fn modify_request(
        &mut self,
        pool: usize,
        index: usize,
        request: &RequestInfo,
        client: &ClientAddress,
        scheme: Scheme,
        now_ms: u64,
    ) -> (r: MiddlewareStep)
        requires
            old(self).wf(),
            pool < old(self).backend_pools@.len(),
            index < old(self).backend_pools@[pool as int].chain@.len(),
        ensures
            final(self).wf(),
            final(self).acme_handler == old(self).acme_handler,
            final(self).backend_pools@.len() == old(self).backend_pools@.len(),
            forall|k: int|
                0 <= k < old(self).backend_pools@.len() && k != pool ==> final(self).backend_pools@[k]
                    == old(self).backend_pools@[k],
            step_outcome(
                old(self).backend_pools@[pool as int].chain@[index as int],
                final(self).backend_pools@[pool as int].chain@[index as int],
                *request,
                *client,
                scheme,
                now_ms,
                r,
            ),
    {
        let ghost before = self.backend_pools@;
        let mut p = self.backend_pools.remove(pool);
        assert(p == before[pool as int]);
        assert(p.wf());
        let r = p.chain.modify_request(index, request, client, scheme, now_ms);
        self.backend_pools.insert(pool, p);
        assert(self.backend_pools@ =~= before.update(pool as int, p));
        assert forall|k: int| 0 <= k < self.backend_pools@.len() implies (
        #[trigger] self.backend_pools@[k]).wf() by {
            if k != pool {
                assert(self.backend_pools@[k] == before[k]);
            }
        }
        r
    }

    /// Records the latest health of address `index` of pool `pool`.
    pub fn set_health(&mut self, pool: usize, index: usize, health: Healthiness)
        requires
            old(self).wf(),
            pool < old(self).backend_pools@.len(),
            index < old(self).backend_pools@[pool as int].addresses@.len(),
        ensures
            final(self).wf(),
            final(self).acme_handler == old(self).acme_handler,
            final(self).backend_pools@.len() == old(self).backend_pools@.len(),
            forall|k: int|
                0 <= k < old(self).backend_pools@.len() && k != pool ==> final(self).backend_pools@[k]
                    == old(self).backend_pools@[k],
            final(self).backend_pools@[pool as int].addresses@ == old(
                self,
            ).backend_pools@[pool as int].addresses@.update(
                index as int,
                (old(self).backend_pools@[pool as int].addresses@[index as int].0, health),
            ),
            final(self).backend_pools@[pool as int].strategy == old(
                self,
            ).backend_pools@[pool as int].strategy,
    {
        let ghost before = self.backend_pools@;
        let mut p = self.backend_pools.remove(pool);
        assert(p == before[pool as int]);
        let mut entry = (String::new(), Healthiness::Unresponsive);
        p.addresses.set_and_swap(index, &mut entry);
        entry.1 = health;
        p.addresses.set_and_swap(index, &mut entry);
        self.backend_pools.insert(pool, p);
        assert(self.backend_pools@ =~= before.update(pool as int, p));
        assert forall|k: int| 0 <= k < self.backend_pools@.len() implies (
        #[trigger] self.backend_pools@[k]).wf() by {
            if k != pool {
                assert(self.backend_pools@[k] == before[k]);
            }
        }
    }
}

} // verus!
