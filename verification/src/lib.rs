//! Verified core of the client for the Ipregistry IP geolocation and threat
//! data API.
//!
//! This crate holds the logic of the client: typed API error codes and error
//! messages, the response model, an LRU response cache whose entries expire
//! after a time-to-live, request parameters and the cache keys derived from
//! them, client settings, the retry decisions taken after each HTTP exchange,
//! and the planning of batch lookups (cache hits and misses, splitting into
//! requests, reassembly in input order). Sending requests, reading clocks and
//! decoding JSON are left to the caller, which hands the results in as plain
//! values.

pub mod cache;
pub mod client;
pub mod error;
pub mod keyed;
pub mod model;
pub mod outside;
pub mod params;
pub mod request;
pub mod text;

pub use cache::{
    CacheEntry, DEFAULT_CACHE_MAX_SIZE, DEFAULT_CACHE_TTL, InMemoryCache, InMemoryCacheBuilder,
};
pub use client::{
    ClientBuilder, ClientConfig, DEFAULT_BASE_URL, DEFAULT_BATCH_CONCURRENCY, DEFAULT_MAX_RETRIES,
    DEFAULT_RETRY_INTERVAL, DEFAULT_TIMEOUT, Exchange, MAX_BATCH_SIZE, NextStep, RetryPolicy,
};
pub use error::{ApiError, ApiErrorPayload, Error, ErrorCode};
pub use model::{IpInfo, RequesterIpInfo, UserAgent, is_bot};
pub use params::QueryParams;
pub use request::{BatchEntry, BatchEnvelope};
