//! End-to-end scenarios driving the assembled monitor.

use pumpguard::config::Config;
use pumpguard::engine::PumpGuard;
use pumpguard::event::{is_buy_event, is_create_event, is_lp_removal_event, is_sell_event};
use pumpguard::tx::DecodedTx;

fn create_tx() -> DecodedTx {
    DecodedTx {
        signatures: vec!["S1".to_string()],
        account_keys: vec!["C1".to_string()],
        pre_balances: vec![2_000_000_000, 7],
        post_balances: vec![1_000_000_000, 7],
        pre_token_mints: vec![],
        post_token_mints: vec!["M1".to_string()],
        log_messages: vec![
            "Program log: Instruction: Create".to_string(),
            "Program log: name: Foo".to_string(),
            "Program log: symbol: FOO".to_string(),
        ],
    }
}

fn sell_tx(mint: &str, wallet: &str, lamports_gained: u64) -> DecodedTx {
    DecodedTx {
        signatures: vec![format!("SELL-{}-{}", mint, lamports_gained)],
        account_keys: vec![wallet.to_string()],
        pre_balances: vec![1_000_000_000],
        post_balances: vec![1_000_000_000 + lamports_gained],
        pre_token_mints: vec![mint.to_string()],
        post_token_mints: vec![],
        log_messages: vec!["Program log: Instruction: Sell".to_string()],
    }
}

fn buy_tx(mint: &str, wallet: &str, lamports_spent: u64, sig: &str) -> DecodedTx {
    DecodedTx {
        signatures: vec![sig.to_string()],
        account_keys: vec![wallet.to_string()],
        pre_balances: vec![10_000_000_000_000],
        post_balances: vec![10_000_000_000_000 - lamports_spent],
        pre_token_mints: vec![],
        post_token_mints: vec![mint.to_string()],
        log_messages: vec!["Program log: Instruction: Buy".to_string()],
    }
}

#[test]
fn classifies_create_sell_buy_and_lp_events() {
    let create = create_tx();
    assert!(is_create_event(&create.log_messages));
    assert!(!is_sell_event(&create.log_messages));

    let sell = sell_tx("M9", "W9", 5);
    assert!(is_sell_event(&sell.log_messages));
    assert!(!is_buy_event(&sell.log_messages));
    assert!(!is_create_event(&sell.log_messages));

    let lp_logs = vec!["Program data: remove_liquidity call".to_string()];
    assert!(is_lp_removal_event(&lp_logs));
    let quiet = vec!["Program log: nothing of note".to_string()];
    assert!(!is_lp_removal_event(&quiet));
}

#[test]
fn new_token_happy_path() {
    let mut guard = PumpGuard::new(Config::default());
    let outcome =
        guard.handle_create_transaction(&create_tx(), 1_000, "2024-01-01T00:00:00+00:00".to_string());

    let token = outcome.token.expect("token should be detected");
    assert_eq!(token.mint, "M1");
    assert_eq!(token.name, "Foo");
    assert_eq!(token.symbol, "FOO");
    assert_eq!(token.creator, "C1");
    assert_eq!(token.signature, "S1");
    assert_eq!(token.initial_liquidity, 1_000_000_000);
    assert_eq!(token.detected_at, 1_000);

    let alert = outcome.alert.expect("one new-token alert");
    assert_eq!(alert.id, 1);
    assert_eq!(alert.alert_type, "new_token");
    assert_eq!(alert.title, "New Token Detected");
    assert_eq!(
        alert.message,
        "Token: Foo (FOO)\nMint: `M1`\nCreator: `C1`\nLiquidity: 1.00 SOL"
    );

    let stats = guard.get_stats();
    assert_eq!(stats.token_monitor.tokens_detected, 1);
    assert_eq!(stats.token_monitor.alerts_sent, 1);
    assert_eq!(stats.token_monitor.tokens_tracked, 1);
    // The linker registered the mint with the rug detector in the same step.
    assert_eq!(stats.rug_detector.tokens_watched, 1);
    assert_eq!(guard.watched_mints(), vec!["M1".to_string()]);
}

#[test]
fn duplicate_mint_is_dropped() {
    let mut guard = PumpGuard::new(Config::default());
    let first = guard.handle_create_transaction(&create_tx(), 1_000, "t0".to_string());
    assert!(first.token.is_some());
    let second = guard.handle_create_transaction(&create_tx(), 2_000, "t1".to_string());
    assert!(second.token.is_none());
    assert!(second.alert.is_none());
    assert_eq!(guard.get_stats().token_monitor.tokens_detected, 1);
}

#[test]
fn blacklisted_creator_is_dropped() {
    let mut guard = PumpGuard::new(Config::default());
    guard.blacklist_creator("C1");
    let outcome = guard.handle_create_transaction(&create_tx(), 1_000, "t0".to_string());
    assert!(outcome.token.is_none());
    assert_eq!(guard.get_stats().token_monitor.tokens_detected, 0);
}

#[test]
fn rate_limit_admits_two_per_minute() {
    let mut config = Config::default();
    config.max_alerts_per_minute = 2;
    let mut guard = PumpGuard::new(config);
    for i in 0..5u64 {
        let mut tx = create_tx();
        tx.post_token_mints = vec![format!("MINT{}", i)];
        tx.signatures = vec![format!("SIG{}", i)];
        let outcome = guard.handle_create_transaction(&tx, 1_000 + i as i64, "t".to_string());
        assert!(outcome.token.is_some(), "all five tokens are recorded");
    }
    let stats = guard.get_stats();
    assert_eq!(stats.token_monitor.tokens_detected, 5);
    assert_eq!(stats.token_monitor.alerts_sent, 2);
    assert_eq!(stats.token_monitor.alerts_skipped, 3);
    assert_eq!(stats.token_monitor.tokens_tracked, 5);
}

#[test]
fn dev_sells_raise_the_score_until_the_rug_verdict() {
    let mut guard = PumpGuard::new(Config::default());
    // Watch a token with 10 SOL of liquidity; the creator D is the dev wallet.
    guard.watch_token("M2", "Tok", "TOK", "D", 10_000_000_000, 0);

    // First dev sell of 4 SOL: dev-sell (+20) and large-sell (+15).
    let alerts = guard.handle_sell_transaction(&sell_tx("M2", "D", 4_000_000_000), "X1", 1_000, "t".into());
    assert_eq!(alerts.len(), 2);
    {
        let rug = &guard;
        let stats = rug.get_stats();
        assert_eq!(stats.rug_detector.rugs_detected, 0);
    }

    // Second dev sell: again +35; score 70, still below the threshold.
    guard.handle_sell_transaction(&sell_tx("M2", "D", 4_000_000_001), "X2", 2_000, "t".into());
    // Third dev sell completes the rapid-selling pattern (+30 on top of +35).
    guard.handle_sell_transaction(&sell_tx("M2", "D", 4_000_000_002), "X3", 3_000, "t".into());

    let stats = guard.get_stats();
    assert_eq!(stats.rug_detector.rugs_detected, 1);
}

#[test]
fn lp_removal_rugs_the_watched_token() {
    let mut guard = PumpGuard::new(Config::default());
    guard.watch_token("M4", "Tok", "TOK", "D", 8_000_000_000, 0);
    let tx = DecodedTx {
        signatures: vec!["L1".to_string()],
        account_keys: vec!["A".to_string()],
        pre_balances: vec![10_000_000_000],
        post_balances: vec![2_000_000_000],
        pre_token_mints: vec!["M4".to_string()],
        post_token_mints: vec![],
        log_messages: vec!["Program log: remove_liquidity".to_string()],
    };
    assert!(is_lp_removal_event(&tx.log_messages));
    let alerts = guard.handle_lp_removal_transaction(&tx);
    assert_eq!(alerts.len(), 1);
    assert_eq!(alerts[0].alert_type, "rug");
    assert!(alerts[0].message.contains("LP removed: 8.00 SOL"));
    assert_eq!(guard.get_stats().rug_detector.rugs_detected, 1);
}

#[test]
fn liquidity_drop_rugs_after_a_due_reading() {
    let mut guard = PumpGuard::new(Config::default());
    guard.watch_token("M5", "Tok", "TOK", "D", 10_000_000_000, 0);
    // A reading 30 s later showing a 60% drop trips the 50% threshold.
    let alerts = guard.handle_liquidity_reading("M5", 4_000_000_000, 30_000);
    assert_eq!(alerts.len(), 1);
    assert!(alerts[0].message.contains("Liquidity dropped 60.0%"));
    // A reading 5 s after the last one is skipped.
    let again = guard.handle_liquidity_reading("M5", 0, 31_000);
    assert!(again.is_empty());
}

#[test]
fn whale_promotion_after_cumulative_volume() {
    let mut config = Config::default();
    config.whale_threshold_lamports = 50_000_000_000;
    let mut guard = PumpGuard::new(config);
    // Four 30-SOL buys by W: each below the single-transaction threshold,
    // the fourth crosses twice the threshold in lifetime volume.
    for (i, mint) in ["A", "B", "C", "D"].iter().enumerate() {
        let sig = format!("B{}", i);
        guard.handle_buy_transaction(
            &buy_tx(mint, "W", 30_000_000_000, &sig),
            (i as i64 + 1) * 1_000,
            "t".to_string(),
        );
    }
    let stats = guard.get_stats();
    assert_eq!(stats.whale_watcher.whales_identified, 1);
    let whales = guard.get_whales();
    assert_eq!(whales.len(), 1);
    assert_eq!(whales[0].address, "W");
    assert_eq!(whales[0].total_volume, 120_000_000_000);
    assert!(whales[0].is_whale);
}

#[test]
fn whale_transaction_alerts_and_top_movers() {
    let mut config = Config::default();
    config.whale_threshold_lamports = 50_000_000_000;
    let mut guard = PumpGuard::new(config);
    let alerts = guard.handle_buy_transaction(
        &buy_tx("MBIG", "W1", 60_000_000_000, "BIG1"),
        1_000,
        "t".to_string(),
    );
    assert_eq!(alerts.len(), 1);
    assert_eq!(alerts[0].alert_type, "whale_buy");
    assert_eq!(alerts[0].title, "Whale ACCUMULATING");
    guard.handle_buy_transaction(&buy_tx("MSMALL", "W2", 1_000_000_000, "SM1"), 2_000, "t".to_string());

    let movers = guard.get_top_movers(10);
    assert_eq!(movers.len(), 2);
    assert_eq!(movers[0].mint, "MBIG");
    assert_eq!(movers[0].net_flow, 60_000_000_000);
    assert_eq!(movers[0].volume, 60_000_000_000);
    assert_eq!(movers[1].mint, "MSMALL");
}

#[test]
fn pattern_pass_reports_accumulation_and_prunes_empty_windows() {
    let mut config = Config::default();
    config.whale_threshold_lamports = 50_000_000_000;
    let mut guard = PumpGuard::new(config);
    for i in 0..3u64 {
        let sig = format!("P{}", i);
        guard.handle_buy_transaction(
            &buy_tx("MP", "WHALE", 60_000_000_000, &sig),
            1_000 + i as i64,
            "t".to_string(),
        );
    }
    let hits = guard.tick_patterns();
    assert_eq!(hits.len(), 1);
    assert!(hits[0].is_buy);
    assert_eq!(hits[0].count, 3);
    assert_eq!(hits[0].total_lamports, 180_000_000_000);
}

#[test]
fn stopping_and_starting_flips_every_module() {
    let mut guard = PumpGuard::new(Config::default());
    let before = guard.module_status();
    assert!(!before.token_monitor && !before.rug_detector && !before.whale_watcher);
    guard.start();
    let running = guard.module_status();
    assert!(running.token_monitor && running.rug_detector && running.whale_watcher);
    guard.shutdown();
    let stopped = guard.module_status();
    assert!(!stopped.token_monitor && !stopped.rug_detector && !stopped.whale_watcher);
}

#[test]
fn watching_a_token_twice_is_a_no_op() {
    let mut guard = PumpGuard::new(Config::default());
    guard.watch_token("M7", "Tok", "TOK", "D", 1_000, 0);
    guard.watch_token("M7", "Other", "OTH", "E", 9_000, 5);
    let stats = guard.get_stats();
    assert_eq!(stats.rug_detector.tokens_watched, 1);
    assert_eq!(guard.watched_mints(), vec!["M7".to_string()]);
}

#[test]
fn recent_tokens_come_back_newest_first() {
    let mut guard = PumpGuard::new(Config::default());
    for (i, mint) in ["M10", "M11", "M12"].iter().enumerate() {
        let mut tx = create_tx();
        tx.post_token_mints = vec![mint.to_string()];
        guard.handle_create_transaction(&tx, 1_000 + i as i64, "t".to_string());
    }
    let recent = guard.get_recent_tokens(2);
    assert_eq!(recent.len(), 2);
    assert_eq!(recent[0].mint, "M12");
    assert_eq!(recent[0].detected_at, 1_002);
    assert_eq!(recent[1].mint, "M11");
}

#[test]
fn missing_name_and_symbol_fall_back_to_defaults() {
    let mut guard = PumpGuard::new(Config::default());
    let mut tx = create_tx();
    tx.log_messages = vec!["Program log: Instruction: Create".to_string()];
    let outcome = guard.handle_create_transaction(&tx, 1_000, "t".to_string());
    let token = outcome.token.expect("detected despite missing metadata");
    assert_eq!(token.name, "Unknown");
    assert_eq!(token.symbol, "UNK");
}

#[test]
fn token_map_is_bounded_at_one_thousand() {
    let mut guard = PumpGuard::new(Config::default());
    for i in 0..1_005u64 {
        let mut tx = create_tx();
        tx.post_token_mints = vec![format!("BULK{}", i)];
        // Keep the liquidity below the alert bound so the limiter stays out
        // of the way.
        tx.pre_balances = vec![10];
        tx.post_balances = vec![5];
        guard.handle_create_transaction(&tx, 1_000 + i as i64, "t".to_string());
    }
    let stats = guard.get_stats();
    assert_eq!(stats.token_monitor.tokens_detected, 1_005);
    assert_eq!(stats.token_monitor.tokens_tracked, 1_000, "the oldest entries were evicted");
    let recent = guard.get_recent_tokens(1);
    assert_eq!(recent[0].mint, "BULK1004");
}

#[test]
fn sell_history_is_capped_at_one_hundred() {
    let mut guard = PumpGuard::new(Config::default());
    guard.watch_token("M8", "Tok", "TOK", "D", 1_000_000_000_000_000, 0);
    for i in 0..105i64 {
        let mut tx = sell_tx("M8", "S", 10);
        tx.signatures = vec![format!("H{}", i)];
        guard.handle_sell_transaction(&tx, &format!("H{}", i), 1_000 + i, "t".to_string());
    }
    let engine = &guard;
    let details = engine.get_token_details("M8").expect("still watched");
    assert_eq!(details.sell_history.len(), 100);
    assert_eq!(details.sell_history[0].signature, "H5", "the five oldest sells were evicted");
}
