use crate::algorithms::{names_address, Context, RequestForwarder};
use crate::request::RequestInfo;
use rand::Rng;
use vstd::prelude::*;

verus! {

/// Relies on `rand::Rng::gen_range` over `thread_rng`: a value in `0..n`,
/// which panics on an empty range.
#[verifier::external_body]
pub(crate) fn random_below(n: usize) -> (r: usize)
    requires
        n > 0,
    ensures
        r < n,
{
    rand::thread_rng().gen_range(0..n)
}

/// Chooses a selectable address uniformly at random.
#[derive(Debug)]
pub struct Random {}

impl Random {
    pub fn new() -> Random {
        Random {  }
    }

    /// Chooses one of the selectable addresses.
    pub fn select_backend(&self, _request: &RequestInfo, context: &Context) -> (r: RequestForwarder)
        requires
            context.backend_addresses@.len() > 0,
        ensures
            exists|i: int| names_address(context.backend_addresses@, i, r.backend_address@),
            r.set_cookie is None,
    {
        let idx = random_below(context.backend_addresses.len());
        let r = RequestForwarder::new(&context.backend_addresses[idx]);
        assert(names_address(context.backend_addresses@, idx as int, r.backend_address@));
        r
    }
}

} // verus!
