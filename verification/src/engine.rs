//! The assembled monitor: the three analyzers, the alert bus, the store and
//! the stream state, driven as one deterministic machine.
//!
//! The surrounding process classifies nothing and decides nothing: it reads
//! frames, fetches the transactions the classifiers ask for, reads balances
//! and the clock, and calls one step here per event. Every announced token
//! is registered with the rug detector in the same step — the linking can
//! never be subscribed too late.

use vstd::prelude::*;
use crate::alerts::{Alert, AlertService};
use crate::config::Config;
use crate::dashboard::{ModuleStatus, StatsResponse};
use crate::database::{DatabaseService, DbStats};
use crate::event::LogEvent;
use crate::keyed::has_key;
use crate::rug_detector::RugDetector;
use crate::stream::LogStream;
use crate::token_monitor::{
    DetectedToken, NewTokenOutcome, TokenMonitor, detection_rejected, spec_token_of,
};
use crate::tx::DecodedTx;
use crate::whale_watcher::{PatternHit, WhaleWatcher};

verus! {

/// The whole monitor.
pub struct PumpGuard {
    config: Config,
    token_monitor: TokenMonitor,
    rug_detector: RugDetector,
    whale_watcher: WhaleWatcher,
    alerts: AlertService,
    database: DatabaseService,
    stream: LogStream,
}

impl PumpGuard {
    pub closed spec fn monitor(&self) -> TokenMonitor {
        self.token_monitor
    }

    pub closed spec fn rug(&self) -> RugDetector {
        self.rug_detector
    }

    pub closed spec fn whales(&self) -> WhaleWatcher {
        self.whale_watcher
    }

    pub closed spec fn bus(&self) -> AlertService {
        self.alerts
    }

    pub closed spec fn store(&self) -> DatabaseService {
        self.database
    }

    pub closed spec fn stream_state(&self) -> LogStream {
        self.stream
    }

    /// Every component is well-formed.
    pub closed spec fn wf(&self) -> bool {
        &&& self.token_monitor.wf()
        &&& self.rug_detector.wf()
        &&& self.whale_watcher.wf()
        &&& self.alerts.wf()
        &&& self.database.wf()
        &&& self.stream.wf()
    }

    /// Assembles a monitor for this configuration.
    pub fn new(config: Config) -> (r: PumpGuard)
        ensures
            r.wf(),
            r.monitor().detected_view().len() == 0,
            r.rug().watched_view().len() == 0,
            r.whales().wallets_view().len() == 0,
            r.bus().history_view().len() == 0,
            r.bus().next_id_spec() == 1,
            r.store().tokens_view().len() == 0,
            !r.stream_state().connected_spec(),
    {
        let token_monitor = TokenMonitor::new(&config);
        let rug_detector = RugDetector::new(&config);
        let whale_watcher = WhaleWatcher::new(&config);
        PumpGuard {
            config,
            token_monitor,
            rug_detector,
            whale_watcher,
            alerts: AlertService::new(),
            database: DatabaseService::new(),
            stream: LogStream::new(),
        }
    }

    /// The subscription request for the configured program id.
    pub fn subscribe_message(&self) -> (r: String)
        ensures
            r@ == crate::stream::subscribe_request_text(self.program_id_spec()),
    {
        crate::stream::subscribe_request(self.config.pump_program_id.as_str())
    }

    /// The configured program id.
    pub closed spec fn program_id_spec(&self) -> Seq<char> {
        self.config.pump_program_id@
    }

    /// The socket connected: the reconnect backoff resets.
    pub fn stream_connected(&mut self, now_ms: i64)
        requires
            old(self).wf(),
        ensures
            final(self).wf(),
            final(self).stream_state().backoff_spec() == 5,
    {
        self.stream.on_connected(now_ms);
    }

    /// The socket dropped: wait the returned seconds (at most 60) before
    /// reconnecting.
    pub fn stream_disconnected(&mut self) -> (delay_secs: u64)
        requires
            old(self).wf(),
        ensures
            final(self).wf(),
            delay_secs <= 60,
            delay_secs == old(self).stream_state().backoff_spec(),
    {
        self.stream.on_disconnect()
    }

    /// A text frame arrived; a decoded, signed notification comes back for
    /// the fan-out.
    pub fn stream_text_frame(&mut self, text: &str, now_ms: i64) -> (r: Option<LogEvent>)
        requires
            old(self).wf(),
        ensures
            final(self).wf(),
            r matches Some(ev) ==> crate::stream::log_notification_of(text@) == Some(
                (ev.signature@, ev.logs.deep_view()),
            ) && ev.signature@.len() > 0,
    {
        self.stream.on_text_frame(text, now_ms)
    }

    /// A ping or pong arrived.
    pub fn stream_control_frame(&mut self, now_ms: i64)
        requires
            old(self).wf(),
        ensures
            final(self).wf(),
    {
        self.stream.on_control_frame(now_ms);
    }

    /// No frame for over two minutes: reconnect.
    pub fn stream_is_stale(&self, now_ms: i64) -> (r: bool)
        ensures
            r == ((now_ms as int) - (self.stream_state().last_frame_spec() as int) > 120_000),
    {
        self.stream.is_stale(now_ms)
    }

    /// The transaction behind a create-classified event, at `now_ms`.
    ///
    /// Detection runs first; a recorded token is then registered with the
    /// rug detector in the same step, so every announced token is watched.
    pub fn handle_create_transaction(
        &mut self,
        tx: &DecodedTx,
        now_ms: i64,
        now_iso: String,
    ) -> (r: NewTokenOutcome)
        requires
            old(self).wf(),
            now_ms >= old(self).monitor().last_event_spec(),
        ensures
            final(self).wf(),
            r.token is None <==> detection_rejected(
                old(self).monitor().detected_view(),
                old(self).monitor().filters_view(),
                spec_token_of(*tx, now_ms, now_iso@),
            ),
            r.token matches Some(dt) ==> has_key(final(self).rug().watched_view(), dt.mint@),
    {
        let outcome = self.token_monitor.handle_new_token(
            tx,
            now_ms,
            now_iso,
            &mut self.database,
            &mut self.alerts,
        );
        match &outcome.token {
            Some(t) => {
                self.rug_detector.watch_token(
                    t.mint.as_str(),
                    t.name.as_str(),
                    t.symbol.as_str(),
                    t.creator.as_str(),
                    t.initial_liquidity,
                    now_ms,
                );
            },
            None => {},
        }
        outcome
    }

    /// The transaction behind a sell-classified event: both the rug detector
    /// and the whale tracker react to it.
    pub fn handle_sell_transaction(
        &mut self,
        tx: &DecodedTx,
        signature: &str,
        now_ms: i64,
        now_iso: String,
    ) -> (r: Vec<Alert>)
        requires
            old(self).wf(),
        ensures
            final(self).wf(),
            crate::rug_detector::spec_sell_of(*tx) matches Some(s) ==> (has_key(
                old(self).rug().watched_view(),
                s.mint,
            ) ==> final(self).rug().watched_view() == old(self).rug().watched_view().update(
                crate::keyed::idx_of(old(self).rug().watched_view(), s.mint),
                crate::rug_detector::token_after_sell(
                    old(self).rug().watched_view()[crate::keyed::idx_of(
                        old(self).rug().watched_view(),
                        s.mint,
                    )],
                    s,
                    signature@,
                    now_ms,
                    old(self).rug().thresholds_spec(),
                ),
            )),
            crate::whale_watcher::spec_txinfo_of(*tx, false, now_ms) matches Some(info)
                ==> has_key(final(self).whales().wallets_view(), info.wallet) && has_key(
                final(self).whales().movements_view(),
                info.mint,
            ),
            crate::whale_watcher::spec_txinfo_of(*tx, false, now_ms) matches Some(info) ==> {
                let prev_w = if has_key(old(self).whales().wallets_view(), info.wallet) {
                    Some(
                        old(self).whales().wallets_view()[crate::keyed::idx_of(
                            old(self).whales().wallets_view(),
                            info.wallet,
                        )],
                    )
                } else {
                    None
                };
                let prev_m = if has_key(old(self).whales().movements_view(), info.mint) {
                    Some(
                        old(self).whales().movements_view()[crate::keyed::idx_of(
                            old(self).whales().movements_view(),
                            info.mint,
                        )],
                    )
                } else {
                    None
                };
                &&& final(self).whales().wallets_view() == crate::keyed::upsert(
                    old(self).whales().wallets_view(),
                    crate::whale_watcher::wallet_after(
                        prev_w,
                        info,
                        old(self).whales().thresholds_spec(),
                        now_iso@,
                    ),
                )
                &&& final(self).whales().movements_view() == crate::keyed::upsert(
                    old(self).whales().movements_view(),
                    crate::whale_watcher::movement_after(
                        prev_m,
                        info,
                        false,
                        now_ms,
                        old(self).whales().thresholds_spec().accumulation_window_ms,
                    ),
                )
            },
            final(self).bus().next_id_spec() == old(self).bus().next_id_spec() + r@.len(),
            final(self).bus().history_view() == crate::alerts::history_after_all(
                old(self).bus().history_view(),
                r.deep_view(),
            ),
    {
        let ghost bus_h0 = old(self).bus().history_view();
        let mut out = self.rug_detector.analyze_sell_transaction(
            tx,
            signature,
            now_ms,
            now_iso.clone(),
            &mut self.database,
            &mut self.alerts,
        );
        let mut more = self.whale_watcher.analyze_transaction(
            tx,
            false,
            now_ms,
            now_iso,
            &mut self.database,
            &mut self.alerts,
        );
        let ghost r1 = out.deep_view();
        let ghost r2 = more.deep_view();
        out.append(&mut more);
        proof {
            assert(out.deep_view() =~= r1 + r2);
            crate::alerts::lemma_history_after_all_append(bus_h0, r1, r2);
        }
        out
    }

    /// The transaction behind a buy-classified event: the whale tracker
    /// reacts to it.
    pub fn handle_buy_transaction(
        &mut self,
        tx: &DecodedTx,
        now_ms: i64,
        now_iso: String,
    ) -> (r: Vec<Alert>)
        requires
            old(self).wf(),
        ensures
            final(self).wf(),
            crate::whale_watcher::spec_txinfo_of(*tx, true, now_ms) matches Some(info)
                ==> has_key(final(self).whales().wallets_view(), info.wallet) && has_key(
                final(self).whales().movements_view(),
                info.mint,
            ),
            crate::whale_watcher::spec_txinfo_of(*tx, true, now_ms) matches Some(info) ==> {
                let prev_w = if has_key(old(self).whales().wallets_view(), info.wallet) {
                    Some(
                        old(self).whales().wallets_view()[crate::keyed::idx_of(
                            old(self).whales().wallets_view(),
                            info.wallet,
                        )],
                    )
                } else {
                    None
                };
                let prev_m = if has_key(old(self).whales().movements_view(), info.mint) {
                    Some(
                        old(self).whales().movements_view()[crate::keyed::idx_of(
                            old(self).whales().movements_view(),
                            info.mint,
                        )],
                    )
                } else {
                    None
                };
                &&& final(self).whales().wallets_view() == crate::keyed::upsert(
                    old(self).whales().wallets_view(),
                    crate::whale_watcher::wallet_after(
                        prev_w,
                        info,
                        old(self).whales().thresholds_spec(),
                        now_iso@,
                    ),
                )
                &&& final(self).whales().movements_view() == crate::keyed::upsert(
                    old(self).whales().movements_view(),
                    crate::whale_watcher::movement_after(
                        prev_m,
                        info,
                        true,
                        now_ms,
                        old(self).whales().thresholds_spec().accumulation_window_ms,
                    ),
                )
            },
            final(self).bus().next_id_spec() == old(self).bus().next_id_spec() + r@.len(),
            final(self).bus().history_view() == crate::alerts::history_after_all(
                old(self).bus().history_view(),
                r.deep_view(),
            ),
    {
        self.whale_watcher.analyze_transaction(
            tx,
            true,
            now_ms,
            now_iso,
            &mut self.database,
            &mut self.alerts,
        )
    }

    /// The transaction behind an event that looks like a liquidity removal.
    pub fn handle_lp_removal_transaction(&mut self, tx: &DecodedTx) -> (r: Vec<Alert>)
        requires
            old(self).wf(),
        ensures
            final(self).wf(),
            final(self).rug().watched_view().len() == old(self).rug().watched_view().len(),
            forall|k: int|
                0 <= k < old(self).rug().watched_view().len()
                    && (#[trigger] old(self).rug().watched_view()[k]).is_rugged ==> final(self).rug().watched_view()[k].is_rugged,
            forall|k: int|
                0 <= k < old(self).rug().watched_view().len()
                    && tx.pre_token_mints.deep_view().contains(
                    (#[trigger] old(self).rug().watched_view()[k]).mint,
                ) && crate::rug_detector::lp_fires(
                    old(self).rug().watched_view()[k],
                    *tx,
                    old(self).rug().thresholds_spec(),
                ) ==> final(self).rug().watched_view()[k].is_rugged,
    {
        self.rug_detector.analyze_lp_removal(tx, &mut self.database, &mut self.alerts)
    }

    /// A liquidity reading for a watched mint, from the periodic poller.
    pub fn handle_liquidity_reading(
        &mut self,
        mint: &str,
        balance_lamports: u64,
        now_ms: i64,
    ) -> (r: Vec<Alert>)
        requires
            old(self).wf(),
        ensures
            final(self).wf(),
            has_key(old(self).rug().watched_view(), mint@) ==> {
                let i = crate::keyed::idx_of(old(self).rug().watched_view(), mint@);
                let t = old(self).rug().watched_view()[i];
                now_ms - t.last_check >= 25000 ==> final(self).rug().watched_view() == old(self).rug().watched_view().update(
                    i,
                    crate::rug_detector::token_after_health(
                        t,
                        balance_lamports,
                        now_ms,
                        old(self).rug().thresholds_spec(),
                    ),
                )
            },
    {
        self.rug_detector.check_liquidity_health(
            mint,
            balance_lamports,
            now_ms,
            &mut self.database,
            &mut self.alerts,
        )
    }

    /// The periodic whale pattern pass: reports exactly the qualifying
    /// windows and drops the empty ones.
    pub fn tick_patterns(&mut self) -> (r: Vec<PatternHit>)
        requires
            old(self).wf(),
        ensures
            final(self).wf(),
            final(self).whales().movements_view() == old(self).whales().movements_view().filter(
                |m: crate::whale_watcher::TokenMovementV| m.buys.len() > 0 || m.sells.len() > 0,
            ),
            final(self).whales().wallets_view() == old(self).whales().wallets_view(),
            r.deep_view() == crate::whale_watcher::pattern_hits_spec(
                old(self).whales().movements_view(),
                old(self).whales().thresholds_spec(),
            ),
    {
        self.whale_watcher.analyze_patterns()
    }

    /// The mints the health poller should inspect: every watched token.
    pub fn watched_mints(&self) -> (r: Vec<String>)
        ensures
            r.deep_view().len() == self.rug().watched_view().len(),
            forall|k: int|
                0 <= k < r.deep_view().len() ==> (#[trigger] r.deep_view()[k]) == self.rug(
                ).watched_view()[k].mint,
    {
        let tokens = self.rug_detector.get_watched_tokens();
        let n = tokens.len();
        let mut out: Vec<String> = Vec::new();
        let mut i: usize = 0;
        while i < n
            invariant
                n == tokens@.len(),
                tokens.deep_view() == self.rug().watched_view(),
                n == tokens.deep_view().len(),
                i <= n,
                out.deep_view().len() == i as int,
                forall|k: int|
                    0 <= k < i ==> (#[trigger] out.deep_view()[k]) == tokens.deep_view()[k].mint,
            decreases n - i,
        {
            proof {
                assert(tokens.deep_view()[i as int] == tokens@[i as int].deep_view());
            }
            let item = tokens[i].mint.clone();
            let ghost o0 = out.deep_view();
            let ghost iv = item@;
            out.push(item);
            proof {
                assert(out.deep_view() =~= o0.push(iv));
            }
            i += 1;
        }
        out
    }

    /// One block of statistics per analyzer.
    pub fn get_stats(&self) -> (r: StatsResponse)
        ensures
            r.token_monitor.tokens_detected == self.monitor().tokens_detected_spec(),
            r.rug_detector.rugs_detected == self.rug().rugs_detected_spec(),
            r.whale_watcher.whales_identified == self.whales().whales_identified_spec(),
            r.token_monitor.is_running == self.monitor().running_spec(),
            r.rug_detector.is_running == self.rug().running_spec(),
            r.whale_watcher.is_running == self.whales().running_spec(),
    {
        StatsResponse {
            token_monitor: self.token_monitor.get_stats(),
            rug_detector: self.rug_detector.get_stats(),
            whale_watcher: self.whale_watcher.get_stats(),
        }
    }

    /// Which analyzers are running.
    pub fn module_status(&self) -> (r: ModuleStatus)
        ensures
            r.token_monitor == self.monitor().running_spec(),
            r.rug_detector == self.rug().running_spec(),
            r.whale_watcher == self.whales().running_spec(),
    {
        ModuleStatus {
            token_monitor: self.token_monitor.is_running(),
            rug_detector: self.rug_detector.is_running(),
            whale_watcher: self.whale_watcher.is_running(),
        }
    }

    /// Row counts of the store.
    pub fn get_db_stats(&self) -> (r: DbStats)
        requires
            self.store().tokens_view().len() < 0x7fff_ffff_ffff_ffff,
            self.store().transactions_view().len() < 0x7fff_ffff_ffff_ffff,
            self.store().wallets_view().len() < 0x7fff_ffff_ffff_ffff,
            self.store().alerts_view().len() < 0x7fff_ffff_ffff_ffff,
        ensures
            r.total_tokens == self.store().tokens_view().len(),
    {
        self.database.get_stats()
    }

    /// The most recent alerts, newest first.
    pub fn get_recent_alerts(&self, limit: usize) -> (r: Vec<Alert>)
        ensures
            r.deep_view() == self.bus().history_view().take(
                if limit <= self.bus().history_view().len() {
                    limit as int
                } else {
                    self.bus().history_view().len() as int
                },
            ),
    {
        self.alerts.get_recent_alerts(limit)
    }

    /// Starts all three analyzers.
    pub fn start(&mut self)
        requires
            old(self).wf(),
        ensures
            final(self).wf(),
            final(self).monitor().running_spec(),
            final(self).rug().running_spec(),
            final(self).whales().running_spec(),
    {
        self.token_monitor.start();
        self.rug_detector.start();
        self.whale_watcher.start();
    }

    /// Stops all three analyzers; in-flight work completes elsewhere.
    pub fn shutdown(&mut self)
        requires
            old(self).wf(),
        ensures
            final(self).wf(),
            !final(self).monitor().running_spec(),
            !final(self).rug().running_spec(),
            !final(self).whales().running_spec(),
    {
        self.token_monitor.stop();
        self.rug_detector.stop();
        self.whale_watcher.stop();
    }

    /// Adjusts a token-alert liquidity bound (lamports).
    pub fn set_token_filter(&mut self, key: &str, value: u64)
        requires
            old(self).wf(),
        ensures
            final(self).wf(),
    {
        self.token_monitor.set_filter(key, value);
    }

    /// Blacklists a creator for token alerts.
    pub fn blacklist_creator(&mut self, address: &str)
        requires
            old(self).wf(),
        ensures
            final(self).wf(),
            final(self).monitor().filters_view().blacklisted_creators.contains(address@),
    {
        self.token_monitor.blacklist_creator(address);
    }

    /// Whitelists a creator for token alerts.
    pub fn whitelist_creator(&mut self, address: &str)
        requires
            old(self).wf(),
        ensures
            final(self).wf(),
            final(self).monitor().filters_view().whitelisted_creators.contains(address@),
    {
        self.token_monitor.whitelist_creator(address);
    }

    /// Registers a token with the rug detector by hand.
    pub fn watch_token(
        &mut self,
        mint: &str,
        name: &str,
        symbol: &str,
        creator: &str,
        initial_liquidity: u64,
        now_ms: i64,
    )
        requires
            old(self).wf(),
        ensures
            final(self).wf(),
            has_key(final(self).rug().watched_view(), mint@),
    {
        self.rug_detector.watch_token(mint, name, symbol, creator, initial_liquidity, now_ms);
    }

    /// Tracks a wallet by hand.
    pub fn watch_wallet(&mut self, address: &str, label: &str, now_iso: String)
        requires
            old(self).wf(),
        ensures
            final(self).wf(),
    {
        self.whale_watcher.watch_wallet(address, label, now_iso, &mut self.database);
    }

    /// The most recently detected tokens, newest first.
    pub fn get_recent_tokens(&self, limit: usize) -> (r: Vec<DetectedToken>)
        ensures
            r.deep_view().len() == if limit <= self.monitor().detected_view().len() {
                limit as int
            } else {
                self.monitor().detected_view().len() as int
            },
            forall|j: int|
                0 <= j < r.deep_view().len() ==> (#[trigger] r.deep_view()[j]) == self.monitor(
                ).detected_view()[self.monitor().detected_view().len() - 1 - j],
    {
        self.token_monitor.get_recent_tokens(limit)
    }

    /// Every whale wallet, each with only its last ten transactions.
    pub fn get_whales(&self) -> (r: Vec<crate::whale_watcher::WatchedWallet>)
        ensures
            r.deep_view() == self.whales().wallets_view().filter(
                |w: crate::whale_watcher::WatchedWalletV| w.is_whale,
            ).map_values(|w: crate::whale_watcher::WatchedWalletV|
                crate::whale_watcher::whale_summary(w)),
    {
        self.whale_watcher.get_whales()
    }

    /// The movements ranked by the magnitude of their net flow, each with
    /// its window volume; no mint repeats and nothing left out flows more
    /// than the last returned.
    pub fn get_top_movers(&self, limit: usize) -> (r: Vec<crate::whale_watcher::TopMover>)
        requires
            self.wf(),
        ensures
            r.deep_view().len() == if limit <= self.whales().movements_view().len() {
                limit as int
            } else {
                self.whales().movements_view().len() as int
            },
            forall|a: int, b: int|
                0 <= a <= b < r.deep_view().len() ==> crate::whale_watcher::flow_key(
                    (#[trigger] r.deep_view()[a]).net_flow,
                ) >= crate::whale_watcher::flow_key((#[trigger] r.deep_view()[b]).net_flow),
            forall|j: int|
                0 <= j < r.deep_view().len() ==> crate::whale_watcher::mover_comes_from(
                    self.whales().movements_view(),
                    #[trigger] r.deep_view()[j],
                ),
            forall|j1: int, j2: int|
                0 <= j1 < j2 < r.deep_view().len() ==> (#[trigger] r.deep_view()[j1]).mint != (
                #[trigger] r.deep_view()[j2]).mint,
            forall|k: int|
                0 <= k < self.whales().movements_view().len() && r.deep_view().len() > 0 && (
                forall|j: int|
                    0 <= j < r.deep_view().len() ==> (#[trigger] r.deep_view()[j]).mint != (
                    self.whales().movements_view()[k]).mint) ==> crate::whale_watcher::flow_key(
                    (#[trigger] self.whales().movements_view()[k]).net_flow,
                ) <= crate::whale_watcher::flow_key(
                    r.deep_view()[r.deep_view().len() - 1].net_flow,
                ),
    {
        self.whale_watcher.get_top_movers(limit)
    }

    /// Starts the token detector alone.
    pub fn start_token_monitor(&mut self)
        requires
            old(self).wf(),
        ensures
            final(self).wf(),
            final(self).monitor().running_spec(),
    {
        self.token_monitor.start();
    }

    /// Stops the token detector alone.
    pub fn stop_token_monitor(&mut self)
        requires
            old(self).wf(),
        ensures
            final(self).wf(),
            !final(self).monitor().running_spec(),
    {
        self.token_monitor.stop();
    }

    /// Starts the rug detector alone.
    pub fn start_rug_detector(&mut self)
        requires
            old(self).wf(),
        ensures
            final(self).wf(),
            final(self).rug().running_spec(),
    {
        self.rug_detector.start();
    }

    /// Stops the rug detector alone.
    pub fn stop_rug_detector(&mut self)
        requires
            old(self).wf(),
        ensures
            final(self).wf(),
            !final(self).rug().running_spec(),
    {
        self.rug_detector.stop();
    }

    /// Starts the whale tracker alone.
    pub fn start_whale_watcher(&mut self)
        requires
            old(self).wf(),
        ensures
            final(self).wf(),
            final(self).whales().running_spec(),
    {
        self.whale_watcher.start();
    }

    /// Stops the whale tracker alone.
    pub fn stop_whale_watcher(&mut self)
        requires
            old(self).wf(),
        ensures
            final(self).wf(),
            !final(self).whales().running_spec(),
    {
        self.whale_watcher.stop();
    }

    /// The last event time the detector has seen; feed it nothing earlier.
    pub fn monitor_last_event(&self) -> (r: i64)
        ensures
            r == self.monitor().last_event_spec(),
    {
        self.token_monitor.last_event()
    }

    /// Every watched token, in watch order.
    pub fn get_watched_tokens(&self) -> (r: Vec<crate::rug_detector::WatchedToken>)
        ensures
            r.deep_view() == self.rug().watched_view(),
    {
        self.rug_detector.get_watched_tokens()
    }

    /// The watched token under `mint`, if any.
    pub fn get_token_details(&self, mint: &str) -> (r: Option<&crate::rug_detector::WatchedToken>)
        ensures
            r is Some <==> has_key(self.rug().watched_view(), mint@),
    {
        self.rug_detector.get_token_details(mint)
    }

    /// The tracked wallet under `address`, if any.
    pub fn get_wallet_activity(&self, address: &str) -> (r: Option<
        &crate::whale_watcher::WatchedWallet,
    >)
        ensures
            r is Some <==> has_key(self.whales().wallets_view(), address@),
    {
        self.whale_watcher.get_wallet_activity(address)
    }

    /// The most recently created token rows of the store, newest first; no
    /// row repeats, and every stored row newer than a returned one is
    /// itself returned.
    pub fn get_db_recent_tokens(&self, limit: usize) -> (r: Vec<crate::database::TokenRecord>)
        requires
            self.wf(),
        ensures
            r.deep_view().len() == if limit <= self.store().tokens_view().len() {
                limit as int
            } else {
                self.store().tokens_view().len() as int
            },
            forall|a: int, b: int|
                0 <= a <= b < r.deep_view().len() ==> (#[trigger] r.deep_view()[a]).created_at_ms
                    >= (#[trigger] r.deep_view()[b]).created_at_ms,
            forall|j: int|
                0 <= j < r.deep_view().len() ==> crate::database::token_comes_from(
                    self.store().tokens_view(),
                    #[trigger] r.deep_view()[j],
                ),
            forall|j1: int, j2: int|
                0 <= j1 < j2 < r.deep_view().len() ==> (#[trigger] r.deep_view()[j1]).mint != (
                #[trigger] r.deep_view()[j2]).mint,
            forall|k: int|
                0 <= k < self.store().tokens_view().len() && r.deep_view().len() > 0 && (forall|
                    j: int,
                |
                    0 <= j < r.deep_view().len() ==> (#[trigger] r.deep_view()[j]).mint != (
                    self.store().tokens_view()[k]).mint) ==> (#[trigger] self.store().tokens_view()[
                k]).created_at_ms <= r.deep_view()[r.deep_view().len() - 1].created_at_ms,
    {
        self.database.get_recent_tokens(limit)
    }

    /// The stored token row under `mint`, if any.
    pub fn get_db_token(&self, mint: &str) -> (r: Option<&crate::database::TokenRecord>)
        ensures
            r is Some <==> has_key(self.store().tokens_view(), mint@),
    {
        self.database.get_token(mint)
    }
}

} // verus!
