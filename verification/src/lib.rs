//! A caching DNS forwarder: the wire-level parsing of DNS headers and
//! questions, the rules that turn upstream answers into cached answers,
//! and the decisions of the request, resolver, upstream and prefetch paths.

pub mod answers;
pub mod cache_server;
pub mod cacher;
pub mod config;
pub mod dns;
pub mod dns_server;
pub mod error;
pub mod message;
pub mod prefetcher;
pub mod resolver;
pub mod text;
pub mod upstream;
pub mod wire;

pub use cache_server::CacheServer;
pub use cacher::Cacher;
pub use config::Config;
pub use dns::{DNSHeader, DNSQuestion, DNSResourceRecord};
pub use dns_server::DnsServer;
pub use resolver::Resolver;
pub use upstream::Upstream;
