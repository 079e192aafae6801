use ruststrom::acme::{certificate_still_valid, renewal_step, AcmeHandler, RenewalAction, RenewalEvent};
use ruststrom::authentication::{AuthStep, Authentication, SearchScope};
use ruststrom::maxbodysize::MaxBodySize;
use ruststrom::middleware::{CustomErrorPages, HttpsRedirector, Middleware, MiddlewareChain, MiddlewareStep};
use ruststrom::rate_limiter::RateLimiter;
use ruststrom::request::{ClientAddress, RequestInfo, Scheme};
use ruststrom::utils::{split_once, unwrap_result};

fn client() -> ClientAddress {
    ClientAddress::v4(10, 1, 2, 3, 40000)
}

#[test]
fn rate_limiter_allows_limit_then_rejects() {
    let mut limiter = RateLimiter::new(3, 60);
    let c = client();
    assert!(limiter.register_request(&c, 0));
    assert!(limiter.register_request(&c, 3_000));
    assert!(limiter.register_request(&c, 6_000));
    assert!(!limiter.register_request(&c, 9_999));
    // Another client has a bucket of its own.
    assert!(limiter.register_request(&ClientAddress::v4(10, 1, 2, 4, 40000), 9_999));
}

#[test]
fn rate_limiter_forgets_expired_entries() {
    let mut limiter = RateLimiter::new(1, 60);
    let c = client();
    assert!(limiter.register_request(&c, 1_000));
    assert!(!limiter.register_request(&c, 2_000));
    // 61 whole seconds after the latest request, the entry is dropped.
    assert!(limiter.register_request(&c, 63_000));
}

#[test]
fn rate_limiter_chain_replies_429() {
    let mut chain = MiddlewareChain::empty();
    chain.append(Middleware::RateLimiter(RateLimiter::new(3, 60)));
    let request = RequestInfo::new("/");
    let mut statuses = Vec::new();
    for i in 0..4u64 {
        match chain.modify_request(0, &request, &client(), Scheme::HTTP, i * 2_500) {
            MiddlewareStep::Continue => statuses.push(200),
            MiddlewareStep::Reject(reply) => statuses.push(reply.status),
            MiddlewareStep::Query(_) => statuses.push(0),
        }
    }
    assert_eq!(statuses, vec![200, 200, 200, 429]);
}

fn with_length(length: &str) -> RequestInfo {
    let mut request = RequestInfo::new("/upload");
    request.content_length = Some(length.to_string());
    request
}

#[test]
fn max_body_rejects_large_declared_bodies() {
    let max = MaxBodySize::new(1024);
    match max.modify_request(&with_length("2048")) {
        Err(reply) => assert_eq!(reply.status, 413),
        Ok(()) => panic!("a body over the limit passed"),
    }
    assert!(max.modify_request(&with_length("+2048")).is_err());
    assert!(max.modify_request(&with_length("1024")).is_ok());
    assert!(max.modify_request(&with_length("-5")).is_ok());
    assert!(max.modify_request(&with_length("abc")).is_ok());
    assert!(max.modify_request(&with_length("99999999999999999999")).is_ok());
    assert!(max.modify_request(&RequestInfo::new("/")).is_ok());
}

fn auth(recursive: bool) -> Authentication {
    Authentication {
        ldap_address: "ldap://localhost:389".to_string(),
        user_directory: "ou=people,dc=example,dc=org".to_string(),
        rdn_identifier: "uid".to_string(),
        recursive,
    }
}

#[test]
fn authentication_builds_directory_query() {
    let mut request = RequestInfo::new("/");
    request.authorization = Some("Basic YWxpY2U6c2VjcmV0".to_string());
    match auth(true).modify_request(&request) {
        AuthStep::Query(q) => {
            assert_eq!(q.filter, "(uid=alice)");
            assert_eq!(q.password, "secret");
            assert_eq!(q.base, "ou=people,dc=example,dc=org");
            assert_eq!(q.address, "ldap://localhost:389");
            assert_eq!(q.scope, SearchScope::Subtree);
        }
        AuthStep::Reject(_) => panic!("valid credentials were rejected"),
    }
    assert_eq!(auth(false).search_scope(), SearchScope::OneLevel);
}

#[test]
fn authentication_rejects_missing_or_malformed_credentials() {
    let a = auth(false);
    for header in [None, Some("Basic"), Some("Bearer abc"), Some("Basic !!!")] {
        let mut request = RequestInfo::new("/");
        request.authorization = header.map(|h| h.to_string());
        match a.modify_request(&request) {
            AuthStep::Reject(reply) => {
                assert_eq!(reply.status, 401);
                assert_eq!(reply.headers[0].0, "WWW-Authenticate");
            }
            AuthStep::Query(_) => panic!("bad credentials were accepted"),
        }
    }
}

#[test]
fn authentication_verdict() {
    let a = auth(false);
    assert!(a.user_authentication(Some(true)).is_ok());
    assert_eq!(a.user_authentication(Some(false)).unwrap_err().status, 401);
    assert_eq!(a.user_authentication(None).unwrap_err().status, 401);
}

#[test]
fn acme_challenge_responses() {
    let mut handler = AcmeHandler::new();
    handler.add_challenge("tok1", "proof-A".to_string());
    let reply = handler.respond_to_challenge("/.well-known/acme-challenge/tok1").unwrap();
    assert_eq!(reply.status, 200);
    assert_eq!(reply.body, "proof-A");
    let missing = handler.respond_to_challenge("/.well-known/acme-challenge/other").unwrap();
    assert_eq!(missing.status, 404);
    assert!(handler.respond_to_challenge("/index.html").is_none());
    handler.remove_challenge("tok1");
    assert_eq!(handler.get_proof_for_challenge("tok1"), None);
}

#[test]
fn acme_renewal_events_publish_and_withdraw() {
    let mut handler = AcmeHandler::new();
    let mut pending = None;
    assert!(!handler.apply_renewal_event(&mut pending, RenewalEvent::Publish("t1".to_string(), "p1".to_string())));
    assert_eq!(handler.get_proof_for_challenge("t1").as_deref(), Some("p1"));
    assert!(!handler.apply_renewal_event(&mut pending, RenewalEvent::Publish("t2".to_string(), "p2".to_string())));
    assert_eq!(handler.get_proof_for_challenge("t1"), None);
    assert_eq!(handler.get_proof_for_challenge("t2").as_deref(), Some("p2"));
    assert!(handler.apply_renewal_event(&mut pending, RenewalEvent::Finished));
    assert_eq!(handler.get_proof_for_challenge("t2"), None);
    assert_eq!(pending, None);
    assert!(certificate_still_valid(1));
    assert!(!certificate_still_valid(0));
}

#[test]
fn split_once_at_first_pattern() {
    assert_eq!(split_once("a=b=c", '='), Some(("a".to_string(), "b=c".to_string())));
    assert_eq!(split_once("abc", '='), None);
    assert_eq!(split_once("=", '='), Some((String::new(), String::new())));
}

#[test]
fn unwrap_result_takes_either_side() {
    assert_eq!(unwrap_result::<u8>(Ok(1)), 1);
    assert_eq!(unwrap_result::<u8>(Err(2)), 2);
}

#[test]
fn https_redirector_rewrites_location() {
    let redirector = HttpsRedirector {};
    let mut request = RequestInfo::new("/a/b");
    request.host = Some("example.org".to_string());
    let reply = redirector.modify_request(&request, Scheme::HTTP).unwrap_err();
    assert_eq!(reply.status, 308);
    assert_eq!(reply.headers[0], ("Location".to_string(), "https://example.org/a/b".to_string()));
    assert!(redirector.modify_request(&request, Scheme::HTTPS).is_ok());
    assert_eq!(redirector.modify_request(&RequestInfo::new("/"), Scheme::HTTP).unwrap_err().status, 400);
}

#[test]
fn error_pages_replace_bodies_head_first() {
    let mut chain = MiddlewareChain::empty();
    chain.append(Middleware::CustomErrorPages(CustomErrorPages {
        pages: vec![(502, "upstream down".to_string())],
    }));
    chain.append(Middleware::MaxBodySize(MaxBodySize::new(10)));
    chain.append(Middleware::CustomErrorPages(CustomErrorPages {
        pages: vec![(404, "nothing here".to_string()), (502, "later page".to_string())],
    }));
    assert_eq!(chain.modify_response(502).as_deref(), Some("upstream down"));
    assert_eq!(chain.modify_response(404).as_deref(), Some("nothing here"));
    assert_eq!(chain.modify_response(200), None);
    let step = chain.modify_request(0, &RequestInfo::new("/"), &client(), Scheme::HTTP, 0);
    assert!(matches!(step, MiddlewareStep::Continue));
}

#[test]
fn renewal_steps() {
    assert!(matches!(renewal_step(true, None), RenewalAction::Finalize));
    assert!(matches!(renewal_step(false, None), RenewalAction::Fail));
    match renewal_step(false, Some(("t".to_string(), "p".to_string()))) {
        RenewalAction::Publish(t, p) => assert_eq!((t.as_str(), p.as_str()), ("t", "p")),
        _ => panic!("challenge not published"),
    }
}
