use crate::algorithms::{names_address, Context, RequestForwarder};
use crate::request::RequestInfo;
use std::hash::Hasher;
use vstd::prelude::*;

verus! {

/// The 64-bit FNV-1a hash of a byte sequence.
pub uninterp spec fn fnv1a_64(bytes: Seq<u8>) -> u64;

/// Relies on `fnv::FnvHasher`: the default hasher is FNV-1a with the 64-bit
/// offset basis, and `finish` returns the hash of the bytes written.
#[verifier::external_body]
fn fnv_hash(bytes: &[u8]) -> (r: u64)
    ensures
        r == fnv1a_64(bytes@),
{
    let mut hasher = fnv::FnvHasher::default();
    hasher.write(bytes);
    hasher.finish()
}

/// The hash of a client's IP octets.
pub(crate) fn client_hash(client: &crate::request::ClientAddress) -> (r: u64)
    ensures
        r == fnv1a_64(client.ip@),
{
    fnv_hash(client.ip.as_slice())
}

/// The position that IP hashing gives a client IP among `n` addresses.
pub open spec fn ip_hash_index(ip: Seq<u8>, n: nat) -> int {
    (fnv1a_64(ip) as int) % (n as int)
}

/// The position among `len` addresses that a hash value selects.
pub fn index_for_hash(hash: u64, len: usize) -> (r: usize)
    requires
        len > 0,
    ensures
        r as int == (hash as int) % (len as int),
{
    (hash % (len as u64)) as usize
}

/// Sends every request of one client IP to the same address, as long as
/// the selectable addresses stay the same.
#[derive(Debug)]
pub struct IPHash {}

impl IPHash {
    pub fn new() -> IPHash {
        IPHash {  }
    }

    /// Chooses the address at the FNV-1a hash of the client's IP octets,
    /// modulo the number of addresses.
    pub fn select_backend(&self, _request: &RequestInfo, context: &Context) -> (r: RequestForwarder)
        requires
            context.backend_addresses@.len() > 0,
        ensures
            names_address(
                context.backend_addresses@,
                ip_hash_index(context.client_address.ip@, context.backend_addresses@.len()),
                r.backend_address@,
            ),
            r.set_cookie is None,
    {
        let hash = client_hash(&context.client_address);
        let idx = index_for_hash(hash, context.backend_addresses.len());
        RequestForwarder::new(&context.backend_addresses[idx])
    }
}

} // verus!
