use crate::authentication::{basic_credentials, search_filter_text, AuthStep, Authentication, DirectoryQuery, SearchScope};
use crate::maxbodysize::{over_limit, MaxBodySize};
use crate::rate_limiter::{count_of, evict, record, RateLimiter};
use crate::reply::{bad_request, Reply};
use crate::request::{opt_view, ClientAddress, RequestInfo, Scheme};
use vstd::prelude::*;

verus! {

/// Sends plain-HTTP requests to the same host and path over HTTPS.
#[derive(Debug, Clone, Copy)]
pub struct HttpsRedirector {}

/// The `Location` of a redirect to HTTPS.
pub open spec fn https_location(host: Seq<char>, path: Seq<char>) -> Seq<char> {
    seq!['h', 't', 't', 'p', 's', ':', '/', '/'] + host + path
}

impl HttpsRedirector {
    /// Passes requests that came over HTTPS; answers one that came over
    /// HTTP with 308 to the HTTPS location, or 400 when it names no host.
    pub fn modify_request(&self, request: &RequestInfo, scheme: Scheme) -> (r: Result<(), Reply>)
        ensures
            scheme == Scheme::HTTPS ==> r is Ok,
            scheme == Scheme::HTTP ==> match opt_view(request.host) {
                Some(h) => r matches Err(reply) && reply.status == 308 && reply.headers@.len() == 1
                    && reply.headers@[0].0@ == location_name() && reply.headers@[0].1@
                    == https_location(h, request.path@),
                None => r matches Err(reply) && reply.status == 400,
            },
    {
        match scheme {
            Scheme::HTTPS => Ok(()),
            Scheme::HTTP => match &request.host {
                Some(host) => {
                    proof {
                        reveal_strlit("https://");
                        reveal_strlit("Location");
                    }
                    let location = String::from_str("https://").concat(host.as_str()).concat(
                        request.path.as_str(),
                    );
                    let mut headers = Vec::new();
                    headers.push((String::from_str("Location"), location));
                    Err(Reply { status: 308, headers, body: String::new() })
                },
                None => Err(bad_request()),
            },
        }
    }
}

pub open spec fn location_name() -> Seq<char> {
    seq!['L', 'o', 'c', 'a', 't', 'i', 'o', 'n']
}

/// Replaces the body of responses with given statuses.
#[derive(Debug, Clone)]
pub struct CustomErrorPages {
    /// Each status with the body that replaces it, first match wins.
    pub pages: Vec<(u16, String)>,
}

/// The first page registered for `status` from position `i` on.
pub open spec fn page_from(pages: Seq<(u16, String)>, status: u16, i: int) -> Option<Seq<char>>
    decreases pages.len() - i,
{
    if i < 0 || i >= pages.len() {
        None
    } else if pages[i].0 == status {
        Some(pages[i].1@)
    } else {
        page_from(pages, status, i + 1)
    }
}

impl CustomErrorPages {
    /// The body that replaces a response's with this status, if any.
    pub fn modify_response(&self, status: u16) -> (r: Option<String>)
        ensures
            opt_view(r) == page_from(self.pages@, status, 0),
    {
        let mut i: usize = 0;
        while i < self.pages.len()
            invariant
                i <= self.pages@.len(),
                page_from(self.pages@, status, 0) == page_from(self.pages@, status, i as int),
            decreases self.pages@.len() - i,
        {
            if self.pages[i].0 == status {
                return Some(self.pages[i].1.clone());
            }
            i = i + 1;
        }
        None
    }
}

/// One middleware of a pool.
pub enum Middleware {
    MaxBodySize(MaxBodySize),
    RateLimiter(RateLimiter),
    Authentication(Authentication),
    HttpsRedirector(HttpsRedirector),
    CustomErrorPages(CustomErrorPages),
}

/// The body that the response side of `chain` gives a response with
/// `status`: it runs from the last middleware to the first, so the first
/// error page for the status, counting from `i`, is what remains.
pub open spec fn chain_page_from(chain: Seq<Middleware>, status: u16, i: int) -> Option<Seq<char>>
    decreases chain.len() - i,
{
    if i < 0 || i >= chain.len() {
        None
    } else {
        match chain[i] {
            Middleware::CustomErrorPages(c) => match page_from(c.pages@, status, 0) {
                Some(p) => Some(p),
                None => chain_page_from(chain, status, i + 1),
            },
            _ => chain_page_from(chain, status, i + 1),
        }
    }
}

/// What one middleware makes of a request.
#[derive(Debug)]
pub enum MiddlewareStep {
    /// The request goes on to the next middleware.
    Continue,
    /// The request is answered with this reply and not forwarded.
    Reject(Reply),
    /// The directory is to be asked; `Authentication::user_authentication`
    /// then gives the verdict.
    Query(DirectoryQuery),
}

pub open spec fn middleware_wf(m: Middleware) -> bool {
    match m {
        Middleware::RateLimiter(rl) => rl.wf(),
        _ => true,
    }
}

/// Whether `r` is what middleware `before` makes of `request` from `client`
/// at `now_ms`, leaving it as `after`.
pub open spec fn step_outcome(
    before: Middleware,
    after: Middleware,
    request: RequestInfo,
    client: ClientAddress,
    scheme: Scheme,
    now_ms: u64,
    r: MiddlewareStep,
) -> bool {
    match before {
        Middleware::MaxBodySize(m) => {
            &&& after == before
            &&& if over_limit(request.content_length, m.limit) {
                r matches MiddlewareStep::Reject(reply) && reply.status == 413
            } else {
                r is Continue
            }
        },
        Middleware::RateLimiter(rl) => {
            let entries = record(
                evict(rl.entries(), now_ms, rl.window_sec()),
                (client.ip@, client.port),
                now_ms,
            );
            &&& after is RateLimiter
            &&& after->RateLimiter_0.entries() == entries
            &&& after->RateLimiter_0.limit() == rl.limit()
            &&& after->RateLimiter_0.window_sec() == rl.window_sec()
            &&& if count_of(entries, (client.ip@, client.port)) <= rl.limit() {
                r is Continue
            } else {
                r matches MiddlewareStep::Reject(reply) && reply.status == 429
            }
        },
        Middleware::HttpsRedirector(_) => {
            &&& after == before
            &&& scheme == Scheme::HTTPS ==> r is Continue
            &&& scheme == Scheme::HTTP ==> match opt_view(request.host) {
                Some(h) => r matches MiddlewareStep::Reject(reply) && reply.status == 308
                    && reply.headers@.len() == 1 && reply.headers@[0].0@ == location_name()
                    && reply.headers@[0].1@ == https_location(h, request.path@),
                None => r matches MiddlewareStep::Reject(reply) && reply.status == 400,
            }
        },
        Middleware::CustomErrorPages(_) => after == before && r is Continue,
        Middleware::Authentication(a) => {
            &&& after == before
            &&& match opt_view(request.authorization) {
                Some(h) => match basic_credentials(h) {
                    Some((u, p)) => r matches MiddlewareStep::Query(q) && q.address@
                        == a.ldap_address@ && q.base@ == a.user_directory@ && q.scope == (
                    if a.recursive {
                        SearchScope::Subtree
                    } else {
                        SearchScope::OneLevel
                    }) && q.filter@ == search_filter_text(a.rdn_identifier@, u) && q.password@ == p,
                    None => r matches MiddlewareStep::Reject(reply) && reply.status == 401,
                },
                None => r matches MiddlewareStep::Reject(reply) && reply.status == 401,
            }
        },
    }
}

impl Middleware {
    /// Applies this middleware to a request.
    pub fn modify_request(
        &mut self,
        request: &RequestInfo,
        client: &ClientAddress,
        scheme: Scheme,
        now_ms: u64,
    ) -> (r: MiddlewareStep)
        requires
            middleware_wf(*old(self)),
        ensures
            middleware_wf(*final(self)),
            step_outcome(*old(self), *final(self), *request, *client, scheme, now_ms, r),
    {
        match self {
            Middleware::MaxBodySize(m) => match m.modify_request(request) {
                Ok(()) => MiddlewareStep::Continue,
                Err(reply) => MiddlewareStep::Reject(reply),
            },
            Middleware::RateLimiter(rl) => {
                if rl.register_request(client, now_ms) {
                    MiddlewareStep::Continue
                } else {
                    MiddlewareStep::Reject(crate::reply::too_many_requests())
                }
            },
            Middleware::Authentication(a) => match a.modify_request(request) {
                AuthStep::Query(q) => MiddlewareStep::Query(q),
                AuthStep::Reject(reply) => MiddlewareStep::Reject(reply),
            },
            Middleware::HttpsRedirector(h) => match h.modify_request(request, scheme) {
                Ok(()) => MiddlewareStep::Continue,
                Err(reply) => MiddlewareStep::Reject(reply),
            },
            Middleware::CustomErrorPages(_) => MiddlewareStep::Continue,
        }
    }
}

/// The middlewares of a pool, applied in order, first to last.
pub struct MiddlewareChain {
    middlewares: Vec<Middleware>,
}

impl View for MiddlewareChain {
    type V = Seq<Middleware>;

    closed spec fn view(&self) -> Seq<Middleware> {
        self.middlewares@
    }
}

impl MiddlewareChain {
    pub open spec fn wf(&self) -> bool {
        forall|i: int| 0 <= i < self@.len() ==> middleware_wf(#[trigger] self@[i])
    }

    /// A chain without middlewares.
    pub fn empty() -> (r: MiddlewareChain)
        ensures
            r.wf(),
            r@.len() == 0,
    {
        MiddlewareChain { middlewares: Vec::new() }
    }

    /// The chain with `m` appended as its last middleware.
    pub fn append(&mut self, m: Middleware)
        requires
            old(self).wf(),
            middleware_wf(m),
        ensures
            final(self).wf(),
            final(self)@ == old(self)@.push(m),
    {
        self.middlewares.push(m);
    }

    /// The middleware at position `i`.
    pub fn get(&self, i: usize) -> (r: &Middleware)
        requires
            i < self@.len(),
        ensures
            *r == self@[i as int],
    {
        &self.middlewares[i]
    }

    /// The body that replaces a response's with `status` on its way back
    /// through the chain, if any.
    pub fn modify_response(&self, status: u16) -> (r: Option<String>)
        ensures
            opt_view(r) == chain_page_from(self@, status, 0),
    {
        let mut result: Option<String> = None;
        let mut i: usize = self.middlewares.len();
        while i > 0
            invariant
                i <= self@.len(),
                opt_view(result) == chain_page_from(self@, status, i as int),
            decreases i,
        {
            i = i - 1;
            match &self.middlewares[i] {
                Middleware::CustomErrorPages(c) => {
                    if let Some(page) = c.modify_response(status) {
                        result = Some(page);
                    }
                },
                _ => {},
            }
        }
        result
    }

    pub fn len(&self) -> (r: usize)
        ensures
            r == self@.len(),
    {
        self.middlewares.len()
    }

    /// Applies the middleware at `index` to a request.
    pub fn modify_request(
        &mut self,
        index: usize,
        request: &RequestInfo,
        client: &ClientAddress,
        scheme: Scheme,
        now_ms: u64,
    ) -> (r: MiddlewareStep)
        requires
            old(self).wf(),
            index < old(self)@.len(),
        ensures
            final(self).wf(),
            final(self)@.len() == old(self)@.len(),
            forall|i: int| 0 <= i < old(self)@.len() && i != index ==> final(self)@[i] == old(self)@[i],
            step_outcome(
                old(self)@[index as int],
                final(self)@[index as int],
                *request,
                *client,
                scheme,
                now_ms,
                r,
            ),
    {
        let mut current = Middleware::MaxBodySize(MaxBodySize::new(i64::MAX));
        self.middlewares.set_and_swap(index, &mut current);
        assert(middleware_wf(current));
        let r = current.modify_request(request, client, scheme, now_ms);
        self.middlewares.set_and_swap(index, &mut current);
        assert forall|i: int| 0 <= i < self@.len() implies middleware_wf(#[trigger] self@[i]) by {
            if i != index {
                assert(self@[i] == old(self)@[i]);
            }
        }
        r
    }
}

} // verus!
