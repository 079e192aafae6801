use crate::reply::{response_unauthorized, www_authenticate_name, Reply};
use crate::request::{opt_view, RequestInfo};
use vstd::prelude::*;

verus! {

/// The user id and password that `http_auth_basic::Credentials::from_header`
/// reads from an `Authorization` header value.
pub uninterp spec fn basic_credentials(header: Seq<char>) -> Option<(Seq<char>, Seq<char>)>;

/// Relies on `http_auth_basic::Credentials::from_header`: it splits the
/// value at its first space into scheme and base64 credentials, and fails
/// where there is no space.
#[verifier::external_body]
fn decode_basic_credentials(header: &str) -> (r: Option<(String, String)>)
    ensures
        match r {
            Some((u, p)) => basic_credentials(header@) == Some((u@, p@)),
            None => basic_credentials(header@) is None,
        },
        !header@.contains(' ') ==> r is None,
{
    match http_auth_basic::Credentials::from_header(header.to_string()) {
        Ok(c) => Some((c.user_id, c.password)),
        Err(_) => None,
    }
}

/// How deep a directory search goes below its base.
#[derive(Debug, Clone, Copy, PartialEq, Eq, Structural)]
pub enum SearchScope {
    /// The base's direct children only.
    OneLevel,
    /// The whole subtree below the base.
    Subtree,
}

/// A directory lookup that decides whether a request is authenticated:
/// search `base` at `scope` with `filter`, then try to bind as each entry
/// found with `password`.
#[derive(Debug)]
pub struct DirectoryQuery {
    pub address: String,
    pub base: String,
    pub scope: SearchScope,
    pub filter: String,
    pub password: String,
}

/// The search filter `(<rdn>=<user>)`.
pub open spec fn search_filter_text(rdn: Seq<char>, user: Seq<char>) -> Seq<char> {
    seq!['('] + rdn + seq!['='] + user + seq![')']
}

/// HTTP Basic authentication against a directory.
#[derive(Debug)]
pub struct Authentication {
    pub ldap_address: String,
    pub user_directory: String,
    pub rdn_identifier: String,
    pub recursive: bool,
}

/// What authentication makes of a request before the directory is asked.
#[derive(Debug)]
pub enum AuthStep {
    Reject(Reply),
    Query(DirectoryQuery),
}

impl Authentication {
    /// The search scope: the whole subtree when recursive.
    pub fn search_scope(&self) -> (r: SearchScope)
        ensures
            r == (if self.recursive {
                SearchScope::Subtree
            } else {
                SearchScope::OneLevel
            }),
    {
        if self.recursive {
            SearchScope::Subtree
        } else {
            SearchScope::OneLevel
        }
    }

    /// The filter that finds `user` by the configured attribute.
    pub fn search_filter(&self, user: &str) -> (r: String)
        ensures
            r@ == search_filter_text(self.rdn_identifier@, user@),
    {
        proof {
            reveal_strlit("(");
            reveal_strlit("=");
            reveal_strlit(")");
        }
        let r = String::from_str("(").concat(self.rdn_identifier.as_str()).concat("=").concat(
            user,
        ).concat(")");
        r
    }

    /// Reads the request's Basic credentials: without usable ones the
    /// request is answered 401; with them, the directory query to make.
    pub fn modify_request(&self, request: &RequestInfo) -> (r: AuthStep)
        ensures
            match opt_view(request.authorization) {
                Some(h) => match basic_credentials(h) {
                    Some((u, p)) => r matches AuthStep::Query(q) && q.address@ == self.ldap_address@
                        && q.base@ == self.user_directory@ && q.scope == (if self.recursive {
                        SearchScope::Subtree
                    } else {
                        SearchScope::OneLevel
                    }) && q.filter@ == search_filter_text(self.rdn_identifier@, u) && q.password@
                        == p,
                    None => r matches AuthStep::Reject(reply) && reply.status == 401,
                },
                None => r matches AuthStep::Reject(reply) && reply.status == 401,
            },
    {
        match &request.authorization {
            Some(header) => match decode_basic_credentials(header.as_str()) {
                Some((user, password)) => {
                    let filter = self.search_filter(user.as_str());
                    AuthStep::Query(
                        DirectoryQuery {
                            address: self.ldap_address.clone(),
                            base: self.user_directory.clone(),
                            scope: self.search_scope(),
                            filter,
                            password,
                        },
                    )
                },
                None => AuthStep::Reject(response_unauthorized()),
            },
            None => AuthStep::Reject(response_unauthorized()),
        }
    }

    /// The verdict once the directory answered: `Some(true)` when a bind as
    /// one of the entries found succeeded, `Some(false)` when none did, and
    /// `None` when the directory could not be asked. Only the first passes.
    pub fn user_authentication(&self, bound: Option<bool>) -> (r: Result<(), Reply>)
        ensures
            r is Ok <==> bound == Some(true),
            r matches Err(reply) ==> reply.status == 401 && reply.headers@.len() == 1
                && reply.headers@[0].0@ == www_authenticate_name(),
    {
        match bound {
            Some(true) => Ok(()),
            _ => Err(response_unauthorized()),
        }
    }
}

} // verus!
