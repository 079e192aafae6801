use vstd::prelude::*;

verus! {

/// The scheme of the listener that accepted a request.
#[derive(Debug, Clone, Copy, PartialEq, Eq, Hash, Structural)]
#[allow(clippy::upper_case_acronyms)]
pub enum Scheme {
    HTTP,
    HTTPS,
}

impl Scheme {
    /// The scheme's name as it appears in a URI.
    pub fn as_text(&self) -> (r: &'static str)
        ensures
            r@ == scheme_text(*self),
    {
        match self {
            Scheme::HTTP => {
                proof {
                    reveal_strlit("http");
                }
                "http"
            },
            Scheme::HTTPS => {
                proof {
                    reveal_strlit("https");
                }
                "https"
            },
        }
    }
}

pub open spec fn scheme_text(s: Scheme) -> Seq<char> {
    match s {
        Scheme::HTTP => seq!['h', 't', 't', 'p'],
        Scheme::HTTPS => seq!['h', 't', 't', 'p', 's'],
    }
}

/// The remote end of a client connection: the IP address as its octets
/// (four for IPv4, sixteen for IPv6) and the port.
#[derive(Debug, Clone, PartialEq, Eq, Hash)]
pub struct ClientAddress {
    pub ip: Vec<u8>,
    pub port: u16,
}

impl ClientAddress {
    pub open spec fn wf(&self) -> bool {
        self.ip@.len() == 4 || self.ip@.len() == 16
    }

    /// A copy of this address.
    pub fn duplicate(&self) -> (r: ClientAddress)
        ensures
            r.ip@ == self.ip@,
            r.port == self.port,
    {
        let mut ip: Vec<u8> = Vec::new();
        let mut i: usize = 0;
        while i < self.ip.len()
            invariant
                i <= self.ip@.len(),
                ip@ == self.ip@.subrange(0, i as int),
            decreases self.ip@.len() - i,
        {
            ip.push(self.ip[i]);
            i = i + 1;
        }
        assert(ip@ =~= self.ip@);
        ClientAddress { ip, port: self.port }
    }

    /// An IPv4 client address.
    pub fn v4(a: u8, b: u8, c: u8, d: u8, port: u16) -> (r: ClientAddress)
        ensures
            r.ip@ == seq![a, b, c, d],
            r.port == port,
            r.wf(),
    {
        let ip = vec![a, b, c, d];
        ClientAddress { ip, port }
    }
}

/// What the core reads of an incoming HTTP request.
#[derive(Debug, Clone)]
pub struct RequestInfo {
    /// The value of the `Host` header, if any.
    pub host: Option<String>,
    /// The path of the request URI.
    pub path: String,
    /// The raw value of the `Cookie` header, if any.
    pub cookie: Option<String>,
    /// The raw value of the `Content-Length` header, if any.
    pub content_length: Option<String>,
    /// The raw value of the `Authorization` header, if any.
    pub authorization: Option<String>,
}

impl RequestInfo {
    /// A request for `path` with no headers.
    pub fn new(path: &str) -> (r: RequestInfo)
        ensures
            r.path@ == path@,
            r.host is None,
            r.cookie is None,
            r.content_length is None,
            r.authorization is None,
    {
        RequestInfo {
            host: None,
            path: String::from_str(path),
            cookie: None,
            content_length: None,
            authorization: None,
        }
    }
}

pub open spec fn opt_view(o: Option<String>) -> Option<Seq<char>> {
    match o {
        Some(s) => Some(s@),
        None => None,
    }
}

} // verus!
