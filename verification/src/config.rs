//! Runtime configuration as plain values.
//!
//! Loading from the environment is the surrounding process's job; the library
//! holds the settled values. Amounts are lamports, percentages whole
//! percents, windows milliseconds.

use vstd::prelude::*;

verus! {

/// One SOL in lamports.
pub const LAMPORTS_PER_SOL: u64 = 1_000_000_000;

/// Configuration of the monitor.
#[derive(Debug, Clone)]
pub struct Config {
    /// JSON-RPC endpoint.
    pub rpc_url: String,
    /// WebSocket endpoint for the log subscription.
    pub ws_url: String,
    /// Id of the watched token-launch program.
    pub pump_program_id: String,
    /// Chat webhook credentials; `None` disables the webhook.
    pub telegram_bot_token: Option<String>,
    pub telegram_chat_id: Option<String>,
    /// Smallest initial liquidity (lamports) for which a new-token alert fires.
    pub min_liquidity_lamports: u64,
    /// New-token alerts admitted per minute; 0 means unlimited.
    pub max_alerts_per_minute: u32,
    /// Master switch for new-token alerts.
    pub alert_new_tokens: bool,
    /// Single-transaction whale threshold, in lamports.
    pub whale_threshold_lamports: u64,
    pub alert_on_accumulation: bool,
    pub alert_on_dump: bool,
    /// Liquidity drop, in whole percent, treated as a removal.
    pub lp_removal_threshold_percent: u64,
    /// Single sell over this share of current liquidity, in whole percent,
    /// is suspicious.
    pub suspicious_sell_percent: u64,
    /// Alert whenever the developer wallet sells.
    pub dev_wallet_sell_alert: bool,
    /// Port of the read-only dashboard.
    pub dashboard_port: u16,
}

impl Default for Config {
    /// The documented defaults.
    fn default() -> (r: Config)
        ensures
            r.min_liquidity_lamports == LAMPORTS_PER_SOL,
            r.max_alerts_per_minute == 10,
            r.alert_new_tokens,
            r.whale_threshold_lamports == 50 * LAMPORTS_PER_SOL,
            r.alert_on_accumulation,
            r.alert_on_dump,
            r.lp_removal_threshold_percent == 50,
            r.suspicious_sell_percent == 10,
            r.dev_wallet_sell_alert,
            r.dashboard_port == 3000,
            r.telegram_bot_token is None,
            r.telegram_chat_id is None,
            r.rpc_url@ == "https://api.mainnet-beta.solana.com"@,
            r.ws_url@ == "wss://api.mainnet-beta.solana.com"@,
            r.pump_program_id@ == "6EF8rrecthR5Dkzon8Nwu78hRvfCKubJ14M5uBEwF6P"@,
    {
        Config {
            rpc_url: String::from_str("https://api.mainnet-beta.solana.com"),
            ws_url: String::from_str("wss://api.mainnet-beta.solana.com"),
            pump_program_id: String::from_str("6EF8rrecthR5Dkzon8Nwu78hRvfCKubJ14M5uBEwF6P"),
            telegram_bot_token: None,
            telegram_chat_id: None,
            min_liquidity_lamports: LAMPORTS_PER_SOL,
            max_alerts_per_minute: 10,
            alert_new_tokens: true,
            whale_threshold_lamports: 50 * LAMPORTS_PER_SOL,
            alert_on_accumulation: true,
            alert_on_dump: true,
            lp_removal_threshold_percent: 50,
            suspicious_sell_percent: 10,
            dev_wallet_sell_alert: true,
            dashboard_port: 3000,
        }
    }
}

/// How a boolean environment value reads: anything but the literal "false" is
/// true.
pub fn env_flag_is_true(value: &str) -> (r: bool)
    ensures
        r == (value@ != "false"@),
{
    let f: &str = "false";
    !crate::text::str_eq(value, f)
}

} // verus!
