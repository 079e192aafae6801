//! Core of a layer-7 HTTP load balancer: pool matching, backend selection
//! strategies, request middlewares, health classification and the ACME
//! challenge store, each with a contract proved by Verus.

pub mod request;
pub mod matcher;
pub mod health;
pub mod text;
pub mod algorithms;
pub mod round_robin;
pub mod random;
pub mod ip_hash;
pub mod least_connection;
pub mod sticky_cookie;
pub mod reply;
pub mod maxbodysize;
pub mod rate_limiter;
pub mod authentication;
pub mod middleware;
pub mod acme;
pub mod server;
pub mod builder;
pub mod config;
pub mod utils;
pub mod tls;
