use vstd::prelude::*;

verus! {

/// A response that the balancer produces itself, without an upstream.
#[derive(Debug)]
pub struct Reply {
    pub status: u16,
    /// Headers as (name, value) pairs, in order.
    pub headers: Vec<(String, String)>,
    pub body: String,
}

/// A reply with the given status, no headers and an empty body.
pub fn empty_reply(status: u16) -> (r: Reply)
    ensures
        r.status == status,
        r.headers@.len() == 0,
        r.body@.len() == 0,
{
    Reply { status, headers: Vec::new(), body: String::new() }
}

/// 404 Not Found.
pub fn not_found() -> (r: Reply)
    ensures
        r.status == 404,
{
    empty_reply(404)
}

/// 400 Bad Request.
pub fn bad_request() -> (r: Reply)
    ensures
        r.status == 400,
{
    empty_reply(400)
}

/// 502 Bad Gateway.
pub fn bad_gateway() -> (r: Reply)
    ensures
        r.status == 502,
{
    empty_reply(502)
}

/// 413 Payload Too Large.
pub fn request_entity_to_large() -> (r: Reply)
    ensures
        r.status == 413,
{
    empty_reply(413)
}

/// 429 Too Many Requests.
pub fn too_many_requests() -> (r: Reply)
    ensures
        r.status == 429,
{
    empty_reply(429)
}

pub open spec fn www_authenticate_name() -> Seq<char> {
    seq!['W', 'W', 'W', '-', 'A', 'u', 't', 'h', 'e', 'n', 't', 'i', 'c', 'a', 't', 'e']
}

/// 401 Unauthorized, with a `WWW-Authenticate` challenge for Basic auth.
pub fn response_unauthorized() -> (r: Reply)
    ensures
        r.status == 401,
        r.headers@.len() == 1,
        r.headers@[0].0@ == www_authenticate_name(),
        r.body@.len() == 0,
{
    let name = String::from_str("WWW-Authenticate");
    proof {
        reveal_strlit("WWW-Authenticate");
    }
    let value = String::from_str("Basic realm=\"Another Rust Load Balancer requires authentication\"");
    let mut headers = Vec::new();
    headers.push((name, value));
    Reply { status: 401, headers, body: String::new() }
}

/// 200 OK with a plain-text body.
pub fn ok_text(body: String) -> (r: Reply)
    ensures
        r.status == 200,
        r.body == body,
        r.headers@.len() == 1,
{
    let name = String::from_str("Content-Type");
    let value = String::from_str("text/plain");
    let mut headers = Vec::new();
    headers.push((name, value));
    Reply { status: 200, headers, body }
}

} // verus!
