use ruststrom::algorithms::{select_server, Context, LoadBalancingStrategy};
use ruststrom::config::Backend;
use ruststrom::ip_hash::{index_for_hash, IPHash};
use ruststrom::least_connection::LeastConnection;
use ruststrom::random::Random;
use ruststrom::request::{ClientAddress, RequestInfo};
use ruststrom::round_robin::RoundRobin;
use ruststrom::sticky_cookie::{sticky_choice, SameSite, StickyCookie};
use std::collections::HashSet;

fn context(client: ClientAddress, addresses: &[&str]) -> Context {
    Context {
        client_address: client,
        backend_addresses: addresses.iter().map(|a| a.to_string()).collect(),
    }
}

fn local_client() -> ClientAddress {
    ClientAddress::v4(127, 0, 0, 1, 3000)
}

fn request() -> RequestInfo {
    RequestInfo::new("/")
}

#[test]
fn ip_hash_strategy_same_ip() {
    let request = request();
    let context = context(local_client(), &["127.0.0.1:1", "127.0.0.1:2"]);
    let strategy = IPHash::new();

    let address = strategy.select_backend(&request, &context).backend_address;
    assert_eq!(strategy.select_backend(&request, &context).backend_address, address);
    assert_eq!(strategy.select_backend(&request, &context).backend_address, address);
    assert_eq!(strategy.select_backend(&request, &context).backend_address, address);
    assert_eq!(strategy.select_backend(&request, &context).backend_address, address);
}

#[test]
fn ip_hash_strategy_different_ip() {
    let strategy = IPHash::new();
    let backend_addresses = ["127.0.0.1:1", "127.0.0.1:2", "127.0.0.1:3", "127.0.0.1:4"];
    let mut results = HashSet::new();
    for last in 1..=8u8 {
        let request = request();
        let context = context(ClientAddress::v4(192, 168, 0, last, 3000), &backend_addresses);
        let backend = strategy.select_backend(&request, &context).backend_address;
        results.insert(backend.to_string());
    }
    assert!(results.len() >= 2, "Expected at least 2 different backends, got {}", results.len());
}

#[test]
fn ip_hash_uses_fnv1a_of_the_octets() {
    // FNV-1a 64 of [127, 0, 0, 1] is 7785339717392670637, which is odd.
    let strategy = IPHash::new();
    let context = context(local_client(), &["a:1", "b:1"]);
    assert_eq!(strategy.select_backend(&request(), &context).backend_address, "b:1");
    // FNV-1a 64 of [192, 168, 0, 1] is 7910436144844289162, 2 modulo 4.
    let context = context_v4(&[192, 168, 0, 1], &["a:1", "b:1", "c:1", "d:1"]);
    assert_eq!(strategy.select_backend(&request(), &context).backend_address, "c:1");
}

fn context_v4(ip: &[u8; 4], addresses: &[&str]) -> Context {
    context(ClientAddress::v4(ip[0], ip[1], ip[2], ip[3], 80), addresses)
}

#[test]
fn index_for_hash_is_the_remainder() {
    assert_eq!(index_for_hash(7785339717392670637, 2), 1);
    assert_eq!(index_for_hash(7910436144844289162, 4), 2);
    assert_eq!(index_for_hash(10, 3), 1);
}

#[test]
fn least_connection_single_least_address() {
    let request = request();
    let context = context(local_client(), &["127.0.0.1:1", "127.0.0.1:2"]);
    let mut strategy = LeastConnection::new();
    strategy.on_tcp_open("127.0.0.1:1");
    assert_eq!(
        strategy.select_backend(&request, &context).backend_address,
        context.backend_addresses[1]
    );
}

#[test]
fn least_connection_multiple_least_addresses() {
    let request = request();
    let context = context(local_client(), &["127.0.0.1:1", "127.0.0.1:2", "127.0.0.1:3"]);
    let mut strategy = LeastConnection::new();
    strategy.on_tcp_open("127.0.0.1:1");
    assert_ne!(
        strategy.select_backend(&request, &context).backend_address,
        context.backend_addresses[0]
    );
    assert_ne!(
        strategy.select_backend(&request, &context).backend_address,
        context.backend_addresses[0]
    );
    assert_ne!(
        strategy.select_backend(&request, &context).backend_address,
        context.backend_addresses[0]
    );
}

#[test]
fn least_connection_ties_go_to_the_first() {
    let context = context(local_client(), &["a:1", "b:1", "c:1"]);
    let mut strategy = LeastConnection::new();
    assert_eq!(strategy.select_backend(&request(), &context).backend_address, "a:1");
    strategy.on_tcp_open("a:1");
    strategy.on_tcp_open("c:1");
    assert_eq!(strategy.select_backend(&request(), &context).backend_address, "b:1");
}

#[test]
fn least_connection_counts_opens_minus_closes() {
    let mut strategy = LeastConnection::new();
    strategy.on_tcp_open("a:1");
    strategy.on_tcp_open("a:1");
    strategy.on_tcp_open("b:1");
    strategy.on_tcp_close("a:1");
    assert_eq!(strategy.connection_count("a:1"), 1);
    assert_eq!(strategy.connection_count("b:1"), 1);
    strategy.on_tcp_close("a:1");
    strategy.on_tcp_close("a:1");
    strategy.on_tcp_close("c:1");
    assert_eq!(strategy.connection_count("a:1"), 0);
    assert_eq!(strategy.connection_count("c:1"), 0);
}

#[test]
fn round_robin_strategy_single_address() {
    let request = request();
    let address = "127.0.0.1:1";
    let context = context(local_client(), &[address]);
    let mut strategy = RoundRobin::new();
    assert_eq!(strategy.select_backend(&request, &context).backend_address, address);
    assert_eq!(strategy.select_backend(&request, &context).backend_address, address);
    assert_eq!(strategy.select_backend(&request, &context).backend_address, address);
}

#[test]
fn round_robin_strategy_multiple_addresses() {
    let request = request();
    let address_1 = "127.0.0.1:1";
    let address_2 = "127.0.0.1:2";
    let context = context(local_client(), &[address_1, address_2]);
    let mut strategy = RoundRobin::new();
    assert_eq!(strategy.select_backend(&request, &context).backend_address, address_1);
    assert_eq!(strategy.select_backend(&request, &context).backend_address, address_2);
    assert_eq!(strategy.select_backend(&request, &context).backend_address, address_1);
    assert_eq!(strategy.select_backend(&request, &context).backend_address, address_2);
}

#[test]
fn round_robin_covers_each_address_once_per_cycle() {
    let addresses = ["a:1", "b:1", "c:1"];
    let context = context(local_client(), &addresses);
    let mut strategy = RoundRobin::new();
    strategy.select_backend(&request(), &context);
    let mut chosen: Vec<String> =
        (0..3).map(|_| strategy.select_backend(&request(), &context).backend_address).collect();
    chosen.sort();
    assert_eq!(chosen, vec!["a:1", "b:1", "c:1"]);
}

#[test]
fn random_picks_a_selectable_address() {
    let addresses = ["a:1", "b:1", "c:1"];
    let context = context(local_client(), &addresses);
    let strategy = Random::new();
    for _ in 0..50 {
        let chosen = strategy.select_backend(&request(), &context);
        assert!(addresses.contains(&chosen.backend_address.as_str()));
        assert!(chosen.set_cookie.is_none());
    }
}

fn sticky() -> LoadBalancingStrategy {
    LoadBalancingStrategy::StickyCookie(StickyCookie::new(
        "LB".to_string(),
        Box::new(LoadBalancingStrategy::RoundRobin(RoundRobin::new())),
        true,
        false,
        SameSite::Strict,
    ))
}

#[test]
fn sticky_cookie_hit_routes_to_named_address() {
    let mut strategy = sticky();
    let context = context(local_client(), &["a:1", "b:1"]);
    let mut request = request();
    request.cookie = Some("LB=b:1".to_string());
    let chosen = strategy.select_backend(&request, &context);
    assert_eq!(chosen.backend_address, "b:1");
    assert!(chosen.set_cookie.is_none());
}

#[test]
fn sticky_cookie_among_other_cookies() {
    let mut strategy = sticky();
    let context = context(local_client(), &["a:1", "b:1"]);
    let mut request = request();
    request.cookie = Some("theme=dark; LB=b:1; lang=en".to_string());
    let chosen = strategy.select_backend(&request, &context);
    assert_eq!(chosen.backend_address, "b:1");
    assert!(chosen.set_cookie.is_none());
}

#[test]
fn sticky_cookie_miss_sets_cookie_from_inner_choice() {
    let mut strategy = sticky();
    let context = context(local_client(), &["a:1", "b:1"]);
    let chosen = strategy.select_backend(&request(), &context);
    assert_eq!(chosen.backend_address, "a:1");
    assert_eq!(chosen.set_cookie.as_deref(), Some("LB=a:1; HttpOnly; SameSite=Strict"));
    let mut stale = request();
    stale.cookie = Some("LB=z:9".to_string());
    let chosen = strategy.select_backend(&stale, &context);
    assert_eq!(chosen.backend_address, "b:1");
    assert_eq!(chosen.set_cookie.as_deref(), Some("LB=b:1; HttpOnly; SameSite=Strict"));
}

#[test]
fn sticky_cookie_round_trip() {
    let mut strategy = sticky();
    let context = context(local_client(), &["a:1", "b:1"]);
    let first = strategy.select_backend(&request(), &context);
    let issued = first.set_cookie.unwrap();
    let pair = issued.split(';').next().unwrap().to_string();
    let mut follow_up = request();
    follow_up.cookie = Some(pair);
    let second = strategy.select_backend(&follow_up, &context);
    assert_eq!(second.backend_address, first.backend_address);
    assert!(second.set_cookie.is_none());
}

#[test]
fn sticky_cookie_set_cookie_attributes() {
    let cookie = StickyCookie::new(
        "LB".to_string(),
        Box::new(LoadBalancingStrategy::Random(Random::new())),
        false,
        true,
        SameSite::Unrestricted,
    );
    assert_eq!(cookie.modify_response("b:1"), "LB=b:1; SameSite=None; Secure");
    let lax = StickyCookie::new(
        "id".to_string(),
        Box::new(LoadBalancingStrategy::Random(Random::new())),
        true,
        true,
        SameSite::Lax,
    );
    assert_eq!(lax.modify_response("x:2"), "id=x:2; HttpOnly; SameSite=Lax; Secure");
}

#[test]
fn sticky_cookie_parsing() {
    let cookie = StickyCookie::new(
        "LB".to_string(),
        Box::new(LoadBalancingStrategy::Random(Random::new())),
        true,
        false,
        SameSite::Strict,
    );
    assert_eq!(cookie.try_parse_sticky_cookie(&None), None);
    assert_eq!(cookie.try_parse_sticky_cookie(&Some("other=1".to_string())), None);
    assert_eq!(
        cookie.try_parse_sticky_cookie(&Some("LB=\"b:1\"".to_string())).as_deref(),
        Some("b:1")
    );
    assert_eq!(
        cookie.try_parse_sticky_cookie(&Some("a=1; LB=c:3".to_string())).as_deref(),
        Some("c:3")
    );
}

#[test]
fn sticky_choice_finds_first_equal_address() {
    let addresses = vec!["a:1".to_string(), "b:1".to_string(), "b:1".to_string()];
    assert_eq!(sticky_choice(&Some("b:1".to_string()), &addresses), Some(1));
    assert_eq!(sticky_choice(&Some("c:1".to_string()), &addresses), None);
    assert_eq!(sticky_choice(&None, &addresses), None);
}

#[test]
fn least_connection_counters_through_the_strategy() {
    let mut strategy = LoadBalancingStrategy::LeastConnection(LeastConnection::new());
    strategy.on_tcp_open("a:1");
    let context = context(local_client(), &["a:1", "b:1"]);
    assert_eq!(strategy.select_backend(&request(), &context).backend_address, "b:1");
    strategy.on_tcp_close("a:1");
    assert_eq!(strategy.select_backend(&request(), &context).backend_address, "a:1");
}

fn servers() -> Vec<Backend> {
    vec![
        Backend { ip: "10.0.0.1".to_string(), port: 80 },
        Backend { ip: "10.0.0.2".to_string(), port: 80 },
    ]
}

#[test]
fn select_server_by_strategy_name() {
    let client = local_client();
    assert_eq!(select_server(&servers(), "RoundRobin", &client), Some(0));
    assert_eq!(select_server(&servers(), "LeastConnection", &client), Some(0));
    assert_eq!(select_server(&servers(), "IPHash", &client), Some(1));
    assert!(select_server(&servers(), "Random", &client).unwrap() < 2);
    assert_eq!(select_server(&servers(), "StickyCookie", &client), None);
    assert_eq!(select_server(&servers(), "Fastest", &client), None);
    assert_eq!(select_server(&Vec::new(), "RoundRobin", &client), None);
}

#[test]
fn forwarder_backend_uri() {
    let forwarder = ruststrom::algorithms::RequestForwarder::new(&"10.0.0.1:8080".to_string());
    assert_eq!(forwarder.backend_uri("/x?y=1"), "http://10.0.0.1:8080/x?y=1");
}
