//! Client-side core for a swap-quote service on a distributed ledger:
//! error classification, bounded retry with exponential backoff, and a
//! monitor that follows a submitted transaction to a terminal state.
//!
//! Nothing here performs I/O.  Remote calls, clocks and sleeps belong to the
//! caller, which drives the state machines of [`retry`] and [`monitor`] by
//! handing them the outcome of each step and carrying out the action they
//! answer with.

pub mod amount;
pub mod batch;
pub mod client;
pub mod global;
pub mod monitor;
pub mod poll_loop;
pub mod retry;
pub mod tool;
pub mod types;
pub mod wide;

use crate::global::{JUPITER_BASE_URL, MAX_RETRIES, REQUEST_TIMEOUT_SECONDS, RETRY_DELAY_MS};
use vstd::prelude::*;

verus! {

/// Configuration for Jupiter API client.  Durations are whole milliseconds.
#[derive(Debug, Clone)]
pub struct ClientConfig {
    pub base_url: String,
    pub timeout_ms: u64,
    pub connect_timeout_ms: u64,
    pub pool_idle_timeout_ms: u64,
    pub pool_max_idle_per_host: usize,
    pub user_agent: String,
    pub max_retries: u32,
    pub retry_delay_ms: u64,
    pub rate_limit_requests_per_second: Option<u32>,
}

impl Default for ClientConfig {
    fn default() -> (config: Self)
        ensures
            config.base_url@ == JUPITER_BASE_URL@,
            config.timeout_ms == REQUEST_TIMEOUT_SECONDS * 1000,
            config.connect_timeout_ms == 10_000,
            config.pool_idle_timeout_ms == 90_000,
            config.pool_max_idle_per_host == 10,
            config.user_agent@ == "jup-sdk/0.1.0"@,
            config.max_retries == MAX_RETRIES,
            config.retry_delay_ms == RETRY_DELAY_MS,
            config.rate_limit_requests_per_second == Some(10u32),
    {
        ClientConfig {
            base_url: String::from_str(JUPITER_BASE_URL),
            timeout_ms: REQUEST_TIMEOUT_SECONDS * 1000,
            connect_timeout_ms: 10_000,
            pool_idle_timeout_ms: 90_000,
            pool_max_idle_per_host: 10,
            user_agent: String::from_str("jup-sdk/0.1.0"),
            max_retries: MAX_RETRIES,
            retry_delay_ms: RETRY_DELAY_MS,
            rate_limit_requests_per_second: Some(10),
        }
    }
}

impl ClientConfig {
    /// The default configuration with another rate limit.
    pub fn with_rate_limit(requests_per_second: u32) -> (config: Self)
        ensures
            config.rate_limit_requests_per_second == Some(requests_per_second),
            config.base_url@ == JUPITER_BASE_URL@,
            config.timeout_ms == REQUEST_TIMEOUT_SECONDS * 1000,
            config.connect_timeout_ms == 10_000,
            config.pool_idle_timeout_ms == 90_000,
            config.pool_max_idle_per_host == 10,
            config.user_agent@ == "jup-sdk/0.1.0"@,
            config.max_retries == MAX_RETRIES,
            config.retry_delay_ms == RETRY_DELAY_MS,
    {
        let mut config = ClientConfig::default();
        config.rate_limit_requests_per_second = Some(requests_per_second);
        config
    }
}

} // verus!
