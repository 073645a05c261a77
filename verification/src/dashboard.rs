//! The plain data the read-only dashboard serves and accepts.
//!
//! The HTTP layer around the library decodes requests into these types and
//! encodes the responses; the values themselves are built here.

use vstd::prelude::*;
use crate::token_monitor::TokenMonitorStats;
use crate::rug_detector::RugDetectorStats;
use crate::whale_watcher::WhaleWatcherStats;

verus! {

/// Query parameters of the listing endpoints.
#[derive(Debug, Clone, Copy, PartialEq, Eq, Structural)]
pub struct ListParams {
    pub limit: Option<usize>,
}

impl ListParams {
    /// The effective limit: the requested one, or the given default.
    pub fn effective_limit(&self, default: usize) -> (r: usize)
        ensures
            r == match self.limit {
                Some(l) => l,
                None => default,
            },
    {
        match self.limit {
            Some(l) => l,
            None => default,
        }
    }
}

/// Body of the blacklist/whitelist verbs.
#[derive(Debug)]
pub struct AddressRequest {
    pub address: String,
}

/// Body of the watch-wallet verb.
#[derive(Debug)]
pub struct WatchWalletRequest {
    pub address: String,
    pub label: Option<String>,
}

/// Body of the watch-token verb.
#[derive(Debug)]
pub struct WatchTokenRequest {
    pub mint: String,
    pub name: String,
    pub symbol: String,
    pub creator: String,
    /// Lamports.
    pub initial_liquidity: u64,
}

/// Body of the filter verb; the value is lamports.
#[derive(Debug)]
pub struct FilterRequest {
    pub key: String,
    pub value: u64,
}

/// Outcome of a control verb.
#[derive(Debug)]
pub struct ApiResponse {
    pub success: bool,
    pub message: String,
}

impl ApiResponse {
    /// A successful outcome carrying `message`.
    pub fn ok(message: &str) -> (r: ApiResponse)
        ensures
            r.success,
            r.message@ == message@,
    {
        ApiResponse { success: true, message: message.to_owned() }
    }
}

/// Which analyzers are running.
#[derive(Debug, Clone, Copy, PartialEq, Eq, Structural)]
pub struct ModuleStatus {
    pub token_monitor: bool,
    pub rug_detector: bool,
    pub whale_watcher: bool,
}

/// The health endpoint's body.
#[derive(Debug)]
pub struct HealthResponse {
    pub status: String,
    pub uptime_seconds: u64,
    pub modules: ModuleStatus,
}

impl HealthResponse {
    /// A healthy report for the given uptime and module states.
    pub fn healthy(uptime_seconds: u64, modules: ModuleStatus) -> (r: HealthResponse)
        ensures
            r.status@ == "healthy"@,
            r.uptime_seconds == uptime_seconds,
            r.modules == modules,
    {
        HealthResponse { status: String::from_str("healthy"), uptime_seconds, modules }
    }
}

/// The stats endpoint's body: one block per analyzer.
#[derive(Debug, Clone, Copy, PartialEq, Eq, Structural)]
pub struct StatsResponse {
    pub token_monitor: TokenMonitorStats,
    pub rug_detector: RugDetectorStats,
    pub whale_watcher: WhaleWatcherStats,
}

} // verus!
