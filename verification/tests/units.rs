//! Unit-level checks: text utilities, the rate limiter, the alert bus, the
//! store, and the stream state machine.

use pumpguard::alerts::{get_emoji, AlertData, AlertService, TokenAlertInfo};
use pumpguard::config::{env_flag_is_true, Config};
use pumpguard::dashboard::ListParams;
use pumpguard::engine::PumpGuard;
use pumpguard::tx::DecodedTx;
use pumpguard::database::{DatabaseService, TokenRecord, TransactionRecord};
use pumpguard::stream::{decode_log_notification, retry_delay_ms, subscribe_request, LogStream};
use pumpguard::text::{
    contains_str, format_fixed1, format_fixed2, format_sol2, format_sol4, shorten_address,
    starts_with_str, str_eq, strip_prefix_str, trim_spaces, u64_to_dec,
};
use pumpguard::token_monitor::AlertRateLimiter;

#[test]
fn substring_search_is_exact() {
    assert!(contains_str("Program log: Instruction: Create", "Instruction: Create"));
    assert!(!contains_str("Program log: Instruction: Buy", "Instruction: Sell"));
    assert!(contains_str("abc", ""));
    assert!(!contains_str("ab", "abc"));
    assert!(starts_with_str("Program log: name: Foo", "Program log: name: "));
    assert!(!starts_with_str("Prog", "Program"));
}

#[test]
fn prefix_strip_and_trim() {
    let rest = strip_prefix_str("Program log: name: Foo ", "Program log: name: ");
    assert_eq!(rest.as_deref(), Some("Foo "));
    assert_eq!(trim_spaces("  Foo \t\n"), "Foo");
    assert_eq!(trim_spaces(""), "");
    assert!(strip_prefix_str("other", "Program log: ").is_none());
}

#[test]
fn number_rendering() {
    assert_eq!(u64_to_dec(0), "0");
    assert_eq!(u64_to_dec(90210), "90210");
    assert_eq!(format_sol2(1_000_000_000), "1.00");
    assert_eq!(format_sol2(1_500_000_000), "1.50");
    assert_eq!(format_sol2(123_456_789), "0.12");
    assert_eq!(format_sol4(4_000_000_000), "4.0000");
    assert_eq!(format_sol4(1_234_500_000), "1.2345");
    assert_eq!(format_fixed2(3000), "30.00");
    assert_eq!(format_fixed1(600), "60.0");
}

#[test]
fn address_shortening() {
    assert_eq!(shorten_address("abcdefghij", 4), "abcd...ghij");
    assert_eq!(shorten_address("abcdefgh", 4), "abcdefgh");
    assert!(str_eq("same", "same"));
    assert!(!str_eq("same", "sam"));
}

#[test]
fn rate_limiter_window() {
    let mut limiter = AlertRateLimiter::new(2);
    assert!(limiter.can_send(0));
    assert!(limiter.can_send(1));
    assert!(!limiter.can_send(2));
    assert!(!limiter.can_send(59));
    // 61 seconds after the first admission, one slot is free again.
    assert!(limiter.can_send(61));
    assert!(!limiter.can_send(61));
}

#[test]
fn rate_limiter_zero_means_unlimited() {
    let mut limiter = AlertRateLimiter::new(0);
    for t in 0..100i64 {
        assert!(limiter.can_send(t / 10));
    }
}

#[test]
fn alert_ids_count_up_and_history_is_newest_first() {
    let mut bus = AlertService::new();
    let a = bus.send_alert("suspicious", "t1", "m1", AlertData::Empty).unwrap();
    let b = bus.send_alert("rug", "t2", "m2", AlertData::Empty).unwrap();
    let c = bus.send_alert("new_token", "t3", "m3", AlertData::Empty).unwrap();
    assert_eq!((a.id, b.id, c.id), (1, 2, 3));
    let recent = bus.get_recent_alerts(2);
    assert_eq!(recent.len(), 2);
    assert_eq!(recent[0].id, 3);
    assert_eq!(recent[1].id, 2);
}

#[test]
fn alert_builders_render_the_documented_messages() {
    let mut bus = AlertService::new();
    let token = TokenAlertInfo {
        mint: "M1".to_string(),
        name: "Foo".to_string(),
        symbol: "FOO".to_string(),
        creator: "C1".to_string(),
        initial_liquidity: Some(2_500_000_000),
    };
    let a = bus.alert_new_token(&token).unwrap();
    assert_eq!(a.message, "Token: Foo (FOO)\nMint: `M1`\nCreator: `C1`\nLiquidity: 2.50 SOL");
    let b = bus.alert_rug_pull(&token, "LP removed: 8.00 SOL (100.0%)", "critical").unwrap();
    assert_eq!(b.title, "RUG PULL DETECTED - CRITICAL");
    assert_eq!(b.message, "Token: FOO\nMint: `M1`\nReason: LP removed: 8.00 SOL (100.0%)");
    let c = bus.alert_whale("buy", "W", &token, 60_000_000_000, 0).unwrap();
    assert_eq!(c.alert_type, "whale_buy");
    assert_eq!(c.message, "Wallet: `W`\nToken: FOO\nAmount: 60.00 SOL (0 tokens)");
    let d = bus.alert_suspicious(&token, "why").unwrap();
    assert_eq!(d.title, "Suspicious Activity");
    assert_eq!(get_emoji("rug"), "\u{1F6A8}");
    assert_eq!(get_emoji("unheard-of"), "\u{1F4E2}");
}

fn token_row(mint: &str, created_at_ms: i64) -> TokenRecord {
    TokenRecord {
        mint: mint.to_string(),
        name: "N".to_string(),
        symbol: "S".to_string(),
        creator: "C".to_string(),
        created_at: "t0".to_string(),
        created_at_ms,
        initial_liquidity: 5,
        current_liquidity: 5,
        holder_count: 0,
        is_rugged: false,
        rug_reason: None,
        last_updated: String::new(),
    }
}

#[test]
fn token_round_trip_preserves_fields() {
    let mut db = DatabaseService::new();
    db.save_token(token_row("MINT", 7), "2024-01-01".to_string());
    let got = db.get_token("MINT").expect("row present");
    assert_eq!(got.mint, "MINT");
    assert_eq!(got.name, "N");
    assert_eq!(got.created_at_ms, 7);
    assert_eq!(got.last_updated, "2024-01-01");
    // Upserting the same mint replaces the row.
    let mut newer = token_row("MINT", 9);
    newer.name = "N2".to_string();
    db.save_token(newer, "2024-01-02".to_string());
    let got = db.get_token("MINT").expect("row still present");
    assert_eq!(got.name, "N2");
    assert_eq!(got.last_updated, "2024-01-02");
    assert_eq!(db.get_stats().total_tokens, 1);
}

#[test]
fn save_transaction_twice_leaves_one_row() {
    let mut db = DatabaseService::new();
    let row = |amount: u64| TransactionRecord {
        signature: "SIG".to_string(),
        mint: "M".to_string(),
        wallet: "W".to_string(),
        tx_type: "sell".to_string(),
        amount_lamports: amount,
        amount_tokens: 0,
        timestamp: "t".to_string(),
        timestamp_ms: 1,
    };
    db.save_transaction(row(5));
    db.save_transaction(row(9));
    let rows = db.get_transactions_for_token("M", 10);
    assert_eq!(rows.len(), 1);
    assert_eq!(rows[0].amount_lamports, 5, "the first insert wins");
}

#[test]
fn token_transactions_come_newest_first() {
    let mut db = DatabaseService::new();
    let row = |sig: &str, mint: &str, ts: i64| TransactionRecord {
        signature: sig.to_string(),
        mint: mint.to_string(),
        wallet: "W".to_string(),
        tx_type: "sell".to_string(),
        amount_lamports: 1,
        amount_tokens: 0,
        timestamp: "t".to_string(),
        timestamp_ms: ts,
    };
    db.save_transaction(row("S1", "M", 10));
    db.save_transaction(row("S2", "M", 30));
    db.save_transaction(row("S3", "OTHER", 99));
    db.save_transaction(row("S4", "M", 20));
    let rows = db.get_transactions_for_token("M", 2);
    assert_eq!(rows.len(), 2);
    assert_eq!(rows[0].signature, "S2");
    assert_eq!(rows[1].signature, "S4");
}

#[test]
fn recent_tokens_come_newest_first() {
    let mut db = DatabaseService::new();
    db.save_token(token_row("A", 10), "t".to_string());
    db.save_token(token_row("B", 30), "t".to_string());
    db.save_token(token_row("C", 20), "t".to_string());
    let recent = db.get_recent_tokens(2);
    assert_eq!(recent.len(), 2);
    assert_eq!(recent[0].mint, "B");
    assert_eq!(recent[1].mint, "C");
}

#[test]
fn marking_rugged_sets_the_reason() {
    let mut db = DatabaseService::new();
    db.save_token(token_row("M", 1), "t".to_string());
    db.mark_as_rugged("M", "because");
    let got = db.get_token("M").unwrap();
    assert!(got.is_rugged);
    assert_eq!(got.rug_reason.as_deref(), Some("because"));
    assert_eq!(db.get_stats().rugged_tokens, 1);
}

#[test]
fn stream_backoff_doubles_to_the_cap_and_resets() {
    let mut stream = LogStream::new();
    let mut delays = Vec::new();
    for _ in 0..6 {
        delays.push(stream.on_disconnect());
    }
    assert_eq!(delays, vec![5, 10, 20, 40, 60, 60]);
    stream.on_connected(0);
    assert_eq!(stream.on_disconnect(), 5);
}

#[test]
fn stream_decodes_real_notifications() {
    let text = "{\"jsonrpc\":\"2.0\",\"method\":\"logsNotification\",\"params\":{\"result\":{\"context\":{\"slot\":5},\"value\":{\"signature\":\"SIGX\",\"logs\":[\"Program log: Instruction: Create\",\"Program log: name: Foo\"]}},\"subscription\":1}}";
    let ev = decode_log_notification(text).expect("well-formed notification");
    assert_eq!(ev.signature, "SIGX");
    assert_eq!(ev.logs.len(), 2);
    assert_eq!(ev.logs[1], "Program log: name: Foo");
    // A plain confirmation (result, no params) decodes to nothing.
    assert!(decode_log_notification("{\"jsonrpc\":\"2.0\",\"result\":23,\"id\":1}").is_none());
    assert!(decode_log_notification("not json at all").is_none());

    let mut stream = LogStream::new();
    let published = stream.on_text_frame(text, 1_000);
    assert!(published.is_some());
    assert!(!stream.is_stale(100_000));
    assert!(stream.is_stale(130_000));
}

#[test]
fn subscribe_request_names_the_program() {
    let req = subscribe_request("PROGRAMID");
    assert_eq!(
        req,
        "{\"jsonrpc\":\"2.0\",\"id\":1,\"method\":\"logsSubscribe\",\"params\":[{\"mentions\":[\"PROGRAMID\"]},{\"commitment\":\"confirmed\"}]}"
    );
}

#[test]
fn retry_schedule_matches_the_documented_backoff() {
    assert_eq!(retry_delay_ms(true, 0), Some(500));
    assert_eq!(retry_delay_ms(true, 1), Some(1000));
    assert_eq!(retry_delay_ms(true, 2), Some(2000));
    assert_eq!(retry_delay_ms(true, 3), None);
    assert_eq!(retry_delay_ms(false, 0), None);
}

#[test]
fn config_defaults_match_the_documentation() {
    let c = Config::default();
    assert_eq!(c.min_liquidity_lamports, 1_000_000_000);
    assert_eq!(c.max_alerts_per_minute, 10);
    assert!(c.alert_new_tokens);
    assert_eq!(c.whale_threshold_lamports, 50_000_000_000);
    assert_eq!(c.lp_removal_threshold_percent, 50);
    assert_eq!(c.suspicious_sell_percent, 10);
    assert!(c.dev_wallet_sell_alert);
    assert_eq!(c.dashboard_port, 3000);
    assert_eq!(c.pump_program_id, "6EF8rrecthR5Dkzon8Nwu78hRvfCKubJ14M5uBEwF6P");
    assert!(env_flag_is_true("true"));
    assert!(env_flag_is_true("anything"));
    assert!(!env_flag_is_true("false"));
}

#[test]
fn list_params_pick_the_default() {
    assert_eq!(ListParams { limit: Some(3) }.effective_limit(50), 3);
    assert_eq!(ListParams { limit: None }.effective_limit(50), 50);
}

#[test]
fn empty_signature_notifications_are_not_published() {
    let text = "{\"params\":{\"result\":{\"value\":{\"logs\":[\"x\"]}}}}";
    // The notification decodes (the shape is right) but carries no
    // signature, so nothing is published.
    let ev = decode_log_notification(text).expect("shape is a notification");
    assert_eq!(ev.signature, "");
    let mut stream = LogStream::new();
    assert!(stream.on_text_frame(text, 1_000).is_none());
}

#[test]
fn whale_listing_keeps_only_the_last_ten_transactions() {
    let mut config = Config::default();
    config.whale_threshold_lamports = 1_000;
    let mut guard = PumpGuard::new(config);
    for i in 0..15u64 {
        let tx = DecodedTx {
            signatures: vec![format!("W{}", i)],
            account_keys: vec!["BIG".to_string()],
            pre_balances: vec![9_000_000_000],
            post_balances: vec![9_000_000_000 - 2_000],
            pre_token_mints: vec![],
            post_token_mints: vec!["MX".to_string()],
            log_messages: vec!["Program log: Instruction: Buy".to_string()],
        };
        guard.handle_buy_transaction(&tx, 1_000 + i as i64, "t".to_string());
    }
    let whales = guard.get_whales();
    assert_eq!(whales.len(), 1);
    assert_eq!(whales[0].transactions.len(), 10);
    assert_eq!(whales[0].transactions[0].signature, "W5");
}
