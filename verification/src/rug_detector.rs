//! The rug-pull detector: per-token state, suspicion scoring, and the rug
//! verdict.
//!
//! Each watched token accumulates a bounded sell history and a monotone
//! suspicion score; crossing the threshold, a large liquidity withdrawal, or
//! a collapsed balance reading marks the token rugged — a terminal state.

use vstd::prelude::*;
use crate::alerts::{
    Alert, AlertDataV, AlertService, AlertV, TokenAlertInfo, TokenAlertInfoV, history_after,
    history_after_all, severity_label, token_reason_message,
};
use crate::database::{DatabaseService, TransactionRecord};
use crate::keyed::{
    Keyed, has_key, idx_of, insert_new, lemma_idx_of, lemma_insert_new_idempotent,
    lemma_insert_new_unique, lemma_unique_remove, unique_keys,
};
use crate::text::{str_eq, format_sol2, format_fixed2, format_fixed1, sol2_seq, fixed2_seq, fixed1_seq};
use crate::tx::{DecodedTx, first_balance_delta, spec_first_delta};
use crate::config::Config;
use crate::counter::bump;

verus! {

/// One recorded sell of a watched token.
#[derive(Debug)]
pub struct SellInfo {
    pub signature: String,
    pub wallet: String,
    /// Lamports received.
    pub amount_lamports: u64,
    /// Raw token units sold.
    pub amount_tokens: u64,
    /// Epoch milliseconds.
    pub timestamp: i64,
}

/// Spec-level image of a [`SellInfo`].
#[verifier::ext_equal]
pub struct SellInfoV {
    pub signature: Seq<char>,
    pub wallet: Seq<char>,
    pub amount_lamports: u64,
    pub amount_tokens: u64,
    pub timestamp: i64,
}

impl DeepView for SellInfo {
    type V = SellInfoV;

    open spec fn deep_view(&self) -> SellInfoV {
        SellInfoV {
            signature: self.signature@,
            wallet: self.wallet@,
            amount_lamports: self.amount_lamports,
            amount_tokens: self.amount_tokens,
            timestamp: self.timestamp,
        }
    }
}

fn clone_sell(s: &SellInfo) -> (r: SellInfo)
    ensures
        r.deep_view() == s.deep_view(),
{
    SellInfo {
        signature: s.signature.clone(),
        wallet: s.wallet.clone(),
        amount_lamports: s.amount_lamports,
        amount_tokens: s.amount_tokens,
        timestamp: s.timestamp,
    }
}

/// A recorded per-token rule hit.
#[derive(Debug)]
pub struct RugAlert {
    pub alert_type: String,
    pub message: String,
    pub severity: String,
}

/// Spec-level image of a [`RugAlert`].
#[verifier::ext_equal]
pub struct RugAlertV {
    pub alert_type: Seq<char>,
    pub message: Seq<char>,
    pub severity: Seq<char>,
}

impl DeepView for RugAlert {
    type V = RugAlertV;

    open spec fn deep_view(&self) -> RugAlertV {
        RugAlertV {
            alert_type: self.alert_type@,
            message: self.message@,
            severity: self.severity@,
        }
    }
}

fn clone_rug_alert(a: &RugAlert) -> (r: RugAlert)
    ensures
        r.deep_view() == a.deep_view(),
{
    RugAlert {
        alert_type: a.alert_type.clone(),
        message: a.message.clone(),
        severity: a.severity.clone(),
    }
}

/// A token watched for rug behaviour, keyed by mint.
#[derive(Debug)]
pub struct WatchedToken {
    pub mint: String,
    pub name: String,
    pub symbol: String,
    pub creator: String,
    /// Lamports at watch time.
    pub initial_liquidity: u64,
    /// Lamports at the last reading.
    pub current_liquidity: u64,
    /// The creator, watched for developer sells.
    pub dev_wallet: String,
    /// The most recent sells, oldest first, capped at 100.
    pub sell_history: Vec<SellInfo>,
    /// Last health inspection, epoch milliseconds.
    pub last_check: i64,
    /// Monotone; 80 means rugged.
    pub suspicion_score: i32,
    /// Every rule hit recorded for the token.
    pub alerts: Vec<RugAlert>,
    /// Terminal once true.
    pub is_rugged: bool,
    pub rug_reason: Option<String>,
}

/// Spec-level image of a [`WatchedToken`].
#[verifier::ext_equal]
pub struct WatchedTokenV {
    pub mint: Seq<char>,
    pub name: Seq<char>,
    pub symbol: Seq<char>,
    pub creator: Seq<char>,
    pub initial_liquidity: u64,
    pub current_liquidity: u64,
    pub dev_wallet: Seq<char>,
    pub sell_history: Seq<SellInfoV>,
    pub last_check: i64,
    pub suspicion_score: i32,
    pub alerts: Seq<RugAlertV>,
    pub is_rugged: bool,
    pub rug_reason: Option<Seq<char>>,
}

impl DeepView for WatchedToken {
    type V = WatchedTokenV;

    open spec fn deep_view(&self) -> WatchedTokenV {
        WatchedTokenV {
            mint: self.mint@,
            name: self.name@,
            symbol: self.symbol@,
            creator: self.creator@,
            initial_liquidity: self.initial_liquidity,
            current_liquidity: self.current_liquidity,
            dev_wallet: self.dev_wallet@,
            sell_history: self.sell_history.deep_view(),
            last_check: self.last_check,
            suspicion_score: self.suspicion_score,
            alerts: self.alerts.deep_view(),
            is_rugged: self.is_rugged,
            rug_reason: self.rug_reason.deep_view(),
        }
    }
}

impl Keyed for WatchedTokenV {
    open spec fn key(&self) -> Seq<char> {
        self.mint
    }
}

/// Copies a watched token, including its histories.
pub fn clone_watched(t: &WatchedToken) -> (r: WatchedToken)
    ensures
        r.deep_view() == t.deep_view(),
{
    let n = t.sell_history.len();
    let mut sells: Vec<SellInfo> = Vec::new();
    let mut i: usize = 0;
    while i < n
        invariant
            n == t.sell_history@.len(),
            i <= n,
            sells.deep_view() =~= t.sell_history.deep_view().take(i as int),
        decreases n - i,
    {
        proof {
            assert(t.sell_history.deep_view()[i as int] == t.sell_history@[i as int].deep_view());
        }
        let item = clone_sell(&t.sell_history[i]);
        let ghost o0 = sells.deep_view();
        let ghost iv = item.deep_view();
        sells.push(item);
        proof {
            assert(sells.deep_view() =~= o0.push(iv));
            assert(sells.deep_view() =~= t.sell_history.deep_view().take(i + 1));
        }
        i += 1;
    }
    let m = t.alerts.len();
    let mut alerts: Vec<RugAlert> = Vec::new();
    let mut j: usize = 0;
    while j < m
        invariant
            m == t.alerts@.len(),
            j <= m,
            alerts.deep_view() =~= t.alerts.deep_view().take(j as int),
        decreases m - j,
    {
        proof {
            assert(t.alerts.deep_view()[j as int] == t.alerts@[j as int].deep_view());
        }
        let item = clone_rug_alert(&t.alerts[j]);
        let ghost o0 = alerts.deep_view();
        let ghost iv = item.deep_view();
        alerts.push(item);
        proof {
            assert(alerts.deep_view() =~= o0.push(iv));
            assert(alerts.deep_view() =~= t.alerts.deep_view().take(j + 1));
        }
        j += 1;
    }
    proof {
        assert(sells.deep_view() =~= t.sell_history.deep_view());
        assert(alerts.deep_view() =~= t.alerts.deep_view());
    }
    WatchedToken {
        mint: t.mint.clone(),
        name: t.name.clone(),
        symbol: t.symbol.clone(),
        creator: t.creator.clone(),
        initial_liquidity: t.initial_liquidity,
        current_liquidity: t.current_liquidity,
        dev_wallet: t.dev_wallet.clone(),
        sell_history: sells,
        last_check: t.last_check,
        suspicion_score: t.suspicion_score,
        alerts,
        is_rugged: t.is_rugged,
        rug_reason: match &t.rug_reason {
            Some(s) => Some(s.clone()),
            None => None,
        },
    }
}

/// Rug detection thresholds. Percentages are whole percents; windows are
/// milliseconds.
#[derive(Debug, Clone, Copy, PartialEq, Eq, Structural)]
pub struct RugThresholds {
    pub lp_removal_percent: u64,
    pub suspicious_sell_percent: u64,
    pub dev_wallet_sell_alert: bool,
    pub max_dev_sell_percent: u64,
    pub min_time_between_sells: i64,
    pub holder_concentration_alert: u64,
}

/// Detector statistics.
#[derive(Debug, Clone, Copy, PartialEq, Eq, Structural)]
pub struct RugDetectorStats {
    pub tokens_watched: u64,
    pub rugs_detected: u64,
    pub alerts_sent: u64,
    pub watched_tokens: usize,
    pub is_running: bool,
}

/// A parsed sell: the token, the seller, and what moved.
#[derive(Debug)]
pub struct ParsedSell {
    pub mint: String,
    pub wallet: String,
    pub amount_lamports: u64,
    pub amount_tokens: u64,
}

/// Spec-level image of a [`ParsedSell`].
#[verifier::ext_equal]
pub struct ParsedSellV {
    pub mint: Seq<char>,
    pub wallet: Seq<char>,
    pub amount_lamports: u64,
    pub amount_tokens: u64,
}

impl DeepView for ParsedSell {
    type V = ParsedSellV;

    open spec fn deep_view(&self) -> ParsedSellV {
        ParsedSellV {
            mint: self.mint@,
            wallet: self.wallet@,
            amount_lamports: self.amount_lamports,
            amount_tokens: self.amount_tokens,
        }
    }
}

/// What a sell transaction parses to: the first signer, the first recorded
/// mint before the transaction, and the first account's lamport change.
/// Token amounts are not decoded and read 0.
pub open spec fn spec_sell_of(tx: DecodedTx) -> Option<ParsedSellV> {
    if tx.account_keys.deep_view().len() > 0 && tx.pre_token_mints.deep_view().len() > 0 {
        Some(
            ParsedSellV {
                mint: tx.pre_token_mints.deep_view()[0],
                wallet: tx.account_keys.deep_view()[0],
                amount_lamports: spec_first_delta(tx.pre_balances@, tx.post_balances@),
                amount_tokens: 0,
            },
        )
    } else {
        None
    }
}

/// Parses a sell out of a decoded transaction.
pub fn parse_sell_transaction(tx: &DecodedTx) -> (r: Option<ParsedSell>)
    ensures
        r.deep_view() == spec_sell_of(*tx),
{
    if tx.account_keys.len() == 0 || tx.pre_token_mints.len() == 0 {
        return None;
    }
    proof {
        assert(tx.pre_token_mints.deep_view()[0] == tx.pre_token_mints@[0]@);
        assert(tx.account_keys.deep_view()[0] == tx.account_keys@[0]@);
    }
    let amount_lamports = first_balance_delta(&tx.pre_balances, &tx.post_balances);
    Some(
        ParsedSell {
            mint: tx.pre_token_mints[0].clone(),
            wallet: tx.account_keys[0].clone(),
            amount_lamports,
            amount_tokens: 0,
        },
    )
}

/// First position of `mint` among the watched tokens.
fn watched_pos(tokens: &Vec<WatchedToken>, mint: &str) -> (r: Option<usize>)
    ensures
        r matches Some(i) ==> i < tokens@.len() && idx_of(tokens.deep_view(), mint@) == i,
        r is None ==> idx_of(tokens.deep_view(), mint@) == -1,
{
    let n = tokens.len();
    let mut i: usize = 0;
    while i < n
        invariant
            n == tokens@.len(),
            i <= n,
            forall|k: int| 0 <= k < i ==> (#[trigger] tokens.deep_view()[k]).mint != mint@,
        decreases n - i,
    {
        proof {
            assert(tokens.deep_view()[i as int] == tokens@[i as int].deep_view());
        }
        if str_eq(tokens[i].mint.as_str(), mint) {
            proof {
                let s = tokens.deep_view();
                lemma_idx_of(s, mint@);
                assert(s[i as int].key() == mint@);
                let x = idx_of(s, mint@);
                if x < i as int {
                    assert(s[x].mint != mint@);
                    assert(s[x].key() == mint@);
                }
                if x > i as int {
                    assert(s[i as int].key() != mint@);
                }
            }
            return Some(i);
        }
        i += 1;
    }
    proof {
        let s = tokens.deep_view();
        lemma_idx_of(s, mint@);
        let x = idx_of(s, mint@);
        if x >= 0 {
            assert(s[x].key() == mint@);
            assert(s[x].mint != mint@);
        }
    }
    None
}

/// The entry `watch_token` makes for a new mint.
pub open spec fn fresh_watch(
    mint: Seq<char>,
    name: Seq<char>,
    symbol: Seq<char>,
    creator: Seq<char>,
    initial_liquidity: u64,
    now_ms: i64,
) -> WatchedTokenV {
    WatchedTokenV {
        mint,
        name,
        symbol,
        creator,
        initial_liquidity,
        current_liquidity: initial_liquidity,
        dev_wallet: creator,
        sell_history: Seq::empty(),
        last_check: now_ms,
        suspicion_score: 0,
        alerts: Seq::empty(),
        is_rugged: false,
        rug_reason: None,
    }
}

/// The rug detector.
pub struct RugDetector {
    watched_tokens: Vec<WatchedToken>,
    thresholds: RugThresholds,
    tokens_watched: u64,
    rugs_detected: u64,
    alerts_sent: u64,
    is_running: bool,
}

impl RugDetector {
    /// The watched tokens, in watch order.
    pub closed spec fn watched_view(&self) -> Seq<WatchedTokenV> {
        self.watched_tokens.deep_view()
    }

    pub closed spec fn thresholds_spec(&self) -> RugThresholds {
        self.thresholds
    }

    pub closed spec fn tokens_watched_spec(&self) -> u64 {
        self.tokens_watched
    }

    pub closed spec fn rugs_detected_spec(&self) -> u64 {
        self.rugs_detected
    }

    pub closed spec fn alerts_sent_spec(&self) -> u64 {
        self.alerts_sent
    }

    pub closed spec fn running_spec(&self) -> bool {
        self.is_running
    }

    /// Mints unique; every score non-negative; every sell history within its
    /// cap.
    pub closed spec fn wf(&self) -> bool {
        &&& unique_keys(self.watched_view())
        &&& forall|k: int|
            0 <= k < self.watched_view().len() ==> (#[trigger] self.watched_view()[k]).suspicion_score
                >= 0 && self.watched_view()[k].sell_history.len() <= 100
    }

    /// A fresh detector for this configuration: developer sells capped at
    /// 20%, rapid sells measured over one minute.
    pub fn new(config: &Config) -> (r: RugDetector)
        ensures
            r.wf(),
            r.watched_view() == Seq::<WatchedTokenV>::empty(),
            r.thresholds_spec() == (RugThresholds {
                lp_removal_percent: config.lp_removal_threshold_percent,
                suspicious_sell_percent: config.suspicious_sell_percent,
                dev_wallet_sell_alert: config.dev_wallet_sell_alert,
                max_dev_sell_percent: 20,
                min_time_between_sells: 60000,
                holder_concentration_alert: 80,
            }),
            r.tokens_watched_spec() == 0,
            r.rugs_detected_spec() == 0,
            r.alerts_sent_spec() == 0,
            !r.running_spec(),
    {
        let r = RugDetector {
            watched_tokens: Vec::new(),
            thresholds: RugThresholds {
                lp_removal_percent: config.lp_removal_threshold_percent,
                suspicious_sell_percent: config.suspicious_sell_percent,
                dev_wallet_sell_alert: config.dev_wallet_sell_alert,
                max_dev_sell_percent: 20,
                min_time_between_sells: 60000,
                holder_concentration_alert: 80,
            },
            tokens_watched: 0,
            rugs_detected: 0,
            alerts_sent: 0,
            is_running: false,
        };
        proof {
            assert(r.watched_tokens.deep_view() =~= Seq::<WatchedTokenV>::empty());
        }
        r
    }

    /// Watches a token; a mint already watched is left untouched.
    pub fn watch_token(
        &mut self,
        mint: &str,
        name: &str,
        symbol: &str,
        creator: &str,
        initial_liquidity: u64,
        now_ms: i64,
    )
        requires
            old(self).wf(),
        ensures
            final(self).wf(),
            final(self).watched_view() == insert_new(
                old(self).watched_view(),
                fresh_watch(mint@, name@, symbol@, creator@, initial_liquidity, now_ms),
            ),
            has_key(final(self).watched_view(), mint@),
            has_key(old(self).watched_view(), mint@) ==> final(self).watched_view() == old(self).watched_view() && final(self).tokens_watched_spec() == old(self).tokens_watched_spec(),
            !has_key(old(self).watched_view(), mint@) ==> final(self).tokens_watched_spec() == (
            if old(self).tokens_watched_spec() < u64::MAX {
                old(self).tokens_watched_spec() + 1
            } else {
                old(self).tokens_watched_spec() as int
            }),
            final(self).thresholds_spec() == old(self).thresholds_spec(),
            final(self).rugs_detected_spec() == old(self).rugs_detected_spec(),
            final(self).alerts_sent_spec() == old(self).alerts_sent_spec(),
    {
        let ghost fresh = fresh_watch(mint@, name@, symbol@, creator@, initial_liquidity, now_ms);
        proof {
            lemma_insert_new_unique(self.watched_tokens.deep_view(), fresh);
            assert(fresh.key() == mint@);
        }
        if watched_pos(&self.watched_tokens, mint).is_some() {
            return ;
        }
        let token = WatchedToken {
            mint: mint.to_owned(),
            name: name.to_owned(),
            symbol: symbol.to_owned(),
            creator: creator.to_owned(),
            initial_liquidity,
            current_liquidity: initial_liquidity,
            dev_wallet: creator.to_owned(),
            sell_history: Vec::new(),
            last_check: now_ms,
            suspicion_score: 0,
            alerts: Vec::new(),
            is_rugged: false,
            rug_reason: None,
        };
        proof {
            assert(token.sell_history.deep_view() =~= Seq::<SellInfoV>::empty());
            assert(token.alerts.deep_view() =~= Seq::<RugAlertV>::empty());
            assert(token.deep_view() =~= fresh);
        }
        let ghost w0 = self.watched_tokens.deep_view();
        self.watched_tokens.push(token);
        proof {
            assert(self.watched_tokens.deep_view() =~= w0.push(fresh));
        }
        self.tokens_watched = bump(self.tokens_watched);
    }

    /// Stops watching a mint; an unknown mint is a no-op.
    pub fn unwatch_token(&mut self, mint: &str)
        requires
            old(self).wf(),
        ensures
            final(self).wf(),
            !has_key(old(self).watched_view(), mint@) ==> final(self).watched_view() == old(self).watched_view(),
            has_key(old(self).watched_view(), mint@) ==> final(self).watched_view() == old(self).watched_view().remove(idx_of(old(self).watched_view(), mint@)),
            final(self).thresholds_spec() == old(self).thresholds_spec(),
    {
        match watched_pos(&self.watched_tokens, mint) {
            Some(i) => {
                let ghost w0 = self.watched_tokens.deep_view();
                self.watched_tokens.remove(i);
                proof {
                    assert(self.watched_tokens.deep_view() =~= w0.remove(i as int));
                    lemma_unique_remove(w0, i as int);
                }
            },
            None => {},
        }
    }

    /// Marks the detector running.
    pub fn start(&mut self)
        requires
            old(self).wf(),
        ensures
            final(self).wf(),
            final(self).running_spec(),
            final(self).watched_view() == old(self).watched_view(),
            final(self).thresholds_spec() == old(self).thresholds_spec(),
            final(self).tokens_watched_spec() == old(self).tokens_watched_spec(),
            final(self).rugs_detected_spec() == old(self).rugs_detected_spec(),
            final(self).alerts_sent_spec() == old(self).alerts_sent_spec(),
    {
        self.is_running = true;
    }

    /// Marks the detector stopped.
    pub fn stop(&mut self)
        requires
            old(self).wf(),
        ensures
            final(self).wf(),
            !final(self).running_spec(),
            final(self).watched_view() == old(self).watched_view(),
            final(self).thresholds_spec() == old(self).thresholds_spec(),
            final(self).tokens_watched_spec() == old(self).tokens_watched_spec(),
            final(self).rugs_detected_spec() == old(self).rugs_detected_spec(),
            final(self).alerts_sent_spec() == old(self).alerts_sent_spec(),
    {
        self.is_running = false;
    }

    pub fn is_running(&self) -> (r: bool)
        ensures
            r == self.running_spec(),
    {
        self.is_running
    }

    /// The detector's counters and map size.
    pub fn get_stats(&self) -> (r: RugDetectorStats)
        ensures
            r.tokens_watched == self.tokens_watched_spec(),
            r.rugs_detected == self.rugs_detected_spec(),
            r.alerts_sent == self.alerts_sent_spec(),
            r.watched_tokens == self.watched_view().len(),
            r.is_running == self.running_spec(),
    {
        RugDetectorStats {
            tokens_watched: self.tokens_watched,
            rugs_detected: self.rugs_detected,
            alerts_sent: self.alerts_sent,
            watched_tokens: self.watched_tokens.len(),
            is_running: self.is_running,
        }
    }

    /// Every watched token, in watch order.
    pub fn get_watched_tokens(&self) -> (r: Vec<WatchedToken>)
        ensures
            r.deep_view() == self.watched_view(),
    {
        let n = self.watched_tokens.len();
        let mut out: Vec<WatchedToken> = Vec::new();
        let mut i: usize = 0;
        while i < n
            invariant
                n == self.watched_tokens@.len(),
                i <= n,
                out.deep_view() =~= self.watched_tokens.deep_view().take(i as int),
            decreases n - i,
        {
            proof {
                assert(self.watched_tokens.deep_view()[i as int] == self.watched_tokens@[
                    i as int].deep_view());
            }
            let item = clone_watched(&self.watched_tokens[i]);
            let ghost o0 = out.deep_view();
            let ghost iv = item.deep_view();
            out.push(item);
            proof {
                assert(out.deep_view() =~= o0.push(iv));
                assert(out.deep_view() =~= self.watched_tokens.deep_view().take(i + 1));
            }
            i += 1;
        }
        proof {
            assert(self.watched_tokens.deep_view().take(n as int) =~= self.watched_tokens.deep_view());
        }
        out
    }

    /// The watched token under `mint`, if any.
    pub fn get_token_details(&self, mint: &str) -> (r: Option<&WatchedToken>)
        ensures
            r is Some <==> has_key(self.watched_view(), mint@),
            r matches Some(t) ==> t.deep_view() == self.watched_view()[idx_of(
                self.watched_view(),
                mint@,
            )],
    {
        match watched_pos(&self.watched_tokens, mint) {
            Some(i) => Some(&self.watched_tokens[i]),
            None => None,
        }
    }
}

/// Every watched token's sell history stays within its 100-entry cap, and
/// its suspicion score never reads negative.
pub proof fn lemma_sell_history_bounded(d: RugDetector)
    requires
        d.wf(),
    ensures
        forall|k: int|
            0 <= k < d.watched_view().len() ==> (#[trigger] d.watched_view()[k]).sell_history.len()
                <= 100 && d.watched_view()[k].suspicion_score >= 0,
{
}

/// Watching the same mint twice is a no-op after the first: the second
/// registration leaves the map exactly as the first left it.
pub proof fn lemma_watch_token_idempotent(
    s: Seq<WatchedTokenV>,
    t: WatchedTokenV,
    t2: WatchedTokenV,
)
    requires
        unique_keys(s),
        t2.mint == t.mint,
    ensures
        insert_new(insert_new(s, t), t2) == insert_new(s, t),
        has_key(insert_new(s, t), t.mint),
        unique_keys(insert_new(s, t)),
{
    lemma_insert_new_idempotent(s, t, t2);
}


/// The sell entry recorded for a parsed sell at `now_ms`.
pub open spec fn sell_entry(signature: Seq<char>, s: ParsedSellV, now_ms: i64) -> SellInfoV {
    SellInfoV {
        signature,
        wallet: s.wallet,
        amount_lamports: s.amount_lamports,
        amount_tokens: s.amount_tokens,
        timestamp: now_ms,
    }
}

/// The history after recording a sell: append, and evict the oldest entry
/// past 100.
pub open spec fn appended_history(h: Seq<SellInfoV>, s: SellInfoV) -> Seq<SellInfoV> {
    let grown = h.push(s);
    if grown.len() > 100 {
        grown.drop_first()
    } else {
        grown
    }
}

/// The sell falls inside the rapid-sell window ending at `now_ms`.
pub open spec fn sell_is_recent(s: SellInfoV, now_ms: i64, window_ms: i64) -> bool {
    now_ms - s.timestamp < window_ms
}

/// How many recorded sells fall inside the window.
pub open spec fn recent_count(h: Seq<SellInfoV>, now_ms: i64, window_ms: i64) -> int
    decreases h.len(),
{
    if h.len() == 0 {
        0
    } else {
        recent_count(h.drop_last(), now_ms, window_ms) + if sell_is_recent(
            h.last(),
            now_ms,
            window_ms,
        ) {
            1int
        } else {
            0int
        }
    }
}

/// The lamports those sells moved.
pub open spec fn recent_total(h: Seq<SellInfoV>, now_ms: i64, window_ms: i64) -> int
    decreases h.len(),
{
    if h.len() == 0 {
        0
    } else {
        recent_total(h.drop_last(), now_ms, window_ms) + if sell_is_recent(
            h.last(),
            now_ms,
            window_ms,
        ) {
            h.last().amount_lamports as int
        } else {
            0int
        }
    }
}

/// Rule: the developer dumped at least `max_dev_sell_percent` of the supply.
pub open spec fn r1_fires(t: WatchedTokenV, s: ParsedSellV, th: RugThresholds) -> bool {
    s.wallet == t.dev_wallet && s.amount_tokens * 100 >= th.max_dev_sell_percent * 1_000_000_000
}

/// Rule: the developer sold and developer sells are flagged.
pub open spec fn r2_fires(t: WatchedTokenV, s: ParsedSellV, th: RugThresholds) -> bool {
    s.wallet == t.dev_wallet && !(s.amount_tokens * 100 >= th.max_dev_sell_percent
        * 1_000_000_000) && th.dev_wallet_sell_alert
}

/// Rule: at least three sells inside the window moved more than 30% of the
/// initial liquidity.
pub open spec fn r3_fires(h: Seq<SellInfoV>, initial: u64, now_ms: i64, th: RugThresholds) -> bool {
    recent_count(h, now_ms, th.min_time_between_sells) >= 3 && 10 * recent_total(
        h,
        now_ms,
        th.min_time_between_sells,
    ) > 3 * initial
}

/// Rule: a single sell over `suspicious_sell_percent` of current liquidity.
pub open spec fn r4_fires(t: WatchedTokenV, s: ParsedSellV, th: RugThresholds) -> bool {
    t.current_liquidity > 0 && s.amount_lamports * 100 > t.current_liquidity
        * th.suspicious_sell_percent
}

/// Clipping into `u64`, at the spec level.
pub open spec fn sat_u64_spec(x: int) -> int {
    if x <= u64::MAX {
        x
    } else {
        u64::MAX as int
    }
}

/// Clipping into `i32`, at the spec level.
pub open spec fn sat_score_spec(x: int) -> int {
    if x <= i32::MAX {
        x
    } else {
        i32::MAX as int
    }
}

/// The message of a developer-dump rule hit.
pub open spec fn dev_dump_message(amount_tokens: u64) -> Seq<char> {
    "Developer sold "@ + fixed2_seq((amount_tokens * 10000 / 1_000_000_000) as nat)
        + "% of supply"@
}

/// The message of a developer-sell rule hit.
pub open spec fn dev_sell_message(amount_lamports: u64) -> Seq<char> {
    "Developer sold "@ + crate::text::sol4_seq(amount_lamports as nat) + " SOL worth"@
}

/// The message of a rapid-selling rule hit.
pub open spec fn rapid_message(total: int, count: int) -> Seq<char> {
    "Rapid selling detected: "@ + sol2_seq(sat_u64_spec(total) as nat) + " SOL in "@
        + crate::text::dec_digits(count as nat) + " txs"@
}

/// The message of a large-single-sell rule hit.
pub open spec fn large_sell_message(amount: u64, current: u64) -> Seq<char> {
    "Large sell: "@ + crate::text::sol4_seq(amount as nat) + " SOL ("@ + fixed1_seq(
        sat_u64_spec(amount as int * 1000 / current as int) as nat,
    ) + "% of liquidity)"@
}

/// The rule hits a sell produces, in rule order.
pub open spec fn rule_alerts_spec(
    t: WatchedTokenV,
    h: Seq<SellInfoV>,
    s: ParsedSellV,
    now_ms: i64,
    th: RugThresholds,
) -> Seq<RugAlertV> {
    let dev: Seq<RugAlertV> = if r1_fires(t, s, th) {
        seq![
            RugAlertV {
                alert_type: "dev_dump"@,
                message: dev_dump_message(s.amount_tokens),
                severity: "critical"@,
            },
        ]
    } else if r2_fires(t, s, th) {
        seq![
            RugAlertV {
                alert_type: "dev_sell"@,
                message: dev_sell_message(s.amount_lamports),
                severity: "medium"@,
            },
        ]
    } else {
        Seq::empty()
    };
    let rapid: Seq<RugAlertV> = if r3_fires(h, t.initial_liquidity, now_ms, th) {
        seq![
            RugAlertV {
                alert_type: "rapid_selling"@,
                message: rapid_message(
                    recent_total(h, now_ms, th.min_time_between_sells),
                    recent_count(h, now_ms, th.min_time_between_sells),
                ),
                severity: "high"@,
            },
        ]
    } else {
        Seq::empty()
    };
    let large: Seq<RugAlertV> = if r4_fires(t, s, th) {
        seq![
            RugAlertV {
                alert_type: "large_sell"@,
                message: large_sell_message(s.amount_lamports, t.current_liquidity),
                severity: "medium"@,
            },
        ]
    } else {
        Seq::empty()
    };
    dev + rapid + large
}

/// The score a sell adds, by the rules it trips.
pub open spec fn score_delta(
    t: WatchedTokenV,
    h: Seq<SellInfoV>,
    s: ParsedSellV,
    now_ms: i64,
    th: RugThresholds,
) -> int {
    (if r1_fires(t, s, th) {
        50int
    } else {
        0int
    }) + (if r2_fires(t, s, th) {
        20int
    } else {
        0int
    }) + (if r3_fires(h, t.initial_liquidity, now_ms, th) {
        30int
    } else {
        0int
    }) + (if r4_fires(t, s, th) {
        15int
    } else {
        0int
    })
}

/// The watched token after a sell: history appended and capped, score raised
/// by the tripped rules, rule hits recorded, and the token marked rugged when
/// the score reaches 80.
pub open spec fn token_after_sell(
    t: WatchedTokenV,
    s: ParsedSellV,
    signature: Seq<char>,
    now_ms: i64,
    th: RugThresholds,
) -> WatchedTokenV {
    let h = appended_history(t.sell_history, sell_entry(signature, s, now_ms));
    let score2 = sat_score_spec(t.suspicion_score + score_delta(t, h, s, now_ms, th));
    WatchedTokenV {
        sell_history: h,
        suspicion_score: score2 as i32,
        alerts: t.alerts + rule_alerts_spec(t, h, s, now_ms, th),
        is_rugged: t.is_rugged || score2 >= 80,
        rug_reason: if score2 >= 80 {
            Some("High suspicion score reached"@)
        } else {
            t.rug_reason
        },
        ..t
    }
}

/// The token identity an alert about a watched token carries.
pub open spec fn watched_info(t: WatchedTokenV) -> TokenAlertInfoV {
    TokenAlertInfoV {
        mint: t.mint,
        name: t.name,
        symbol: t.symbol,
        creator: t.creator,
        initial_liquidity: Some(t.initial_liquidity),
    }
}

/// `a` is the critical rug alert for `info` with `reason`.
pub open spec fn is_rug_dispatch(a: AlertV, info: TokenAlertInfoV, reason: Seq<char>) -> bool {
    &&& a.alert_type == "rug"@
    &&& a.title == "RUG PULL DETECTED - "@ + severity_label("critical"@)
    &&& a.message == token_reason_message(info, reason)
    &&& a.data == (AlertDataV::RugPull { token: info, reason, severity: "critical"@ })
}

/// `a` is the dispatched form of the rule hit `ra` on `info`: critical hits
/// go out as rug alerts, the rest as suspicious-activity alerts.
pub open spec fn is_rule_dispatch(a: AlertV, info: TokenAlertInfoV, ra: RugAlertV) -> bool {
    if ra.severity == "critical"@ {
        &&& a.alert_type == "rug"@
        &&& a.title == "RUG PULL DETECTED - "@ + severity_label(ra.severity)
        &&& a.message == token_reason_message(info, ra.message)
        &&& a.data == (AlertDataV::RugPull { token: info, reason: ra.message, severity: ra.severity })
    } else {
        &&& a.alert_type == "suspicious"@
        &&& a.title == "Suspicious Activity"@
        &&& a.message == token_reason_message(info, ra.message)
        &&& a.data == (AlertDataV::Suspicious { token: info, reason: ra.message })
    }
}


/// Records the rule hits on the token and dispatches each over the bus:
/// critical hits as rug alerts, the rest as suspicious-activity alerts. The
/// counter grows per hit; the bus history stays the fold of everything in
/// `out` over the given base.
fn dispatch_rule_hits(
    info: &TokenAlertInfo,
    rule_alerts: &Vec<RugAlert>,
    token: &mut WatchedToken,
    sent: &mut u64,
    bus: &mut AlertService,
    out: &mut Vec<Alert>,
    Ghost(bus_h0): Ghost<Seq<AlertV>>,
    Ghost(bus_n0): Ghost<int>,
)
    requires
        old(bus).wf(),
        old(bus).history_view() == history_after_all(bus_h0, old(out).deep_view()),
        old(bus).next_id_spec() == bus_n0 + old(out)@.len(),
        forall|j: int|
            0 <= j < old(out)@.len() ==> (#[trigger] old(out).deep_view()[j]).id == bus_n0 + j,
    ensures
        final(bus).wf(),
        final(token).deep_view() == (WatchedTokenV {
            alerts: old(token).deep_view().alerts + rule_alerts.deep_view(),
            ..old(token).deep_view()
        }),
        *final(sent) == (if *old(sent) + rule_alerts@.len() <= u64::MAX {
            *old(sent) + rule_alerts@.len()
        } else {
            u64::MAX as int
        }),
        final(out)@.len() >= old(out)@.len(),
        forall|j: int| 0 <= j < old(out)@.len() ==> (#[trigger] final(out)@[j]) == old(out)@[j],
        final(bus).history_view() == history_after_all(bus_h0, final(out).deep_view()),
        final(bus).next_id_spec() == bus_n0 + final(out)@.len(),
        forall|j: int|
            0 <= j < final(out)@.len() ==> (#[trigger] final(out).deep_view()[j]).id == bus_n0 + j,
        bus_n0 + old(out)@.len() + rule_alerts@.len() <= 0x7fff_ffff_ffff_ffff ==> {
            &&& final(out)@.len() == old(out)@.len() + rule_alerts@.len()
            &&& forall|p: int|
                0 <= p < rule_alerts@.len() ==> is_rule_dispatch(
                    (#[trigger] final(out).deep_view()[old(out)@.len() + p]),
                    info.deep_view(),
                    rule_alerts.deep_view()[p],
                )
        },
{
    let ghost base = out@.len() as int;
    let ghost a0 = token.alerts.deep_view();
    let ghost t0 = token.deep_view();
    let ra = rule_alerts.len();
    let mut q: usize = 0;
    while q < ra
        invariant
            ra == rule_alerts@.len(),
            q <= ra,
            base == old(out)@.len() as int,
            bus.wf(),
            token.alerts.deep_view() =~= a0 + rule_alerts.deep_view().take(q as int),
            token.deep_view() =~= (WatchedTokenV {
                alerts: a0 + rule_alerts.deep_view().take(q as int),
                ..t0
            }),
            *sent as int == (if *old(sent) + q <= u64::MAX {
                *old(sent) + q
            } else {
                u64::MAX as int
            }),
            out@.len() >= base,
            forall|j: int| 0 <= j < base ==> (#[trigger] out@[j]) == old(out)@[j],
            bus.history_view() == history_after_all(bus_h0, out.deep_view()),
            bus.next_id_spec() == bus_n0 + out@.len(),
            forall|j: int|
                0 <= j < out@.len() ==> (#[trigger] out.deep_view()[j]).id == bus_n0 + j,
            bus_n0 + base + ra <= 0x7fff_ffff_ffff_ffff ==> {
                &&& out@.len() == base + q
                &&& forall|p: int|
                    0 <= p < q ==> is_rule_dispatch(
                        (#[trigger] out.deep_view()[base + p]),
                        info.deep_view(),
                        rule_alerts.deep_view()[p],
                    )
            },
        decreases ra - q,
    {
        proof {
            assert(rule_alerts.deep_view()[q as int] == rule_alerts@[q as int].deep_view());
        }
        let ghost av0 = token.alerts.deep_view();
        let item = clone_rug_alert(&rule_alerts[q]);
        let ghost iv = item.deep_view();
        token.alerts.push(item);
        proof {
            assert(token.alerts.deep_view() =~= av0.push(iv));
            assert(token.alerts.deep_view() =~= a0 + rule_alerts.deep_view().take(q + 1));
        }
        *sent = bump(*sent);
        let dispatched = if str_eq(rule_alerts[q].severity.as_str(), "critical") {
            bus.alert_rug_pull(info, rule_alerts[q].message.as_str(), rule_alerts[q].severity.as_str())
        } else {
            bus.alert_suspicious(info, rule_alerts[q].message.as_str())
        };
        let ghost o_pre = out.deep_view();
        let ghost len_pre = out@.len() as int;
        match dispatched {
            Some(a) => {
                let ghost av = a.deep_view();
                out.push(a);
                proof {
                    assert(out.deep_view() =~= o_pre.push(av));
                    crate::alerts::lemma_history_after_all_push(bus_h0, o_pre, av);
                    assert(is_rule_dispatch(av, info.deep_view(), rule_alerts.deep_view()[q as int]));
                    assert(o_pre.len() == len_pre);
                    assert(out.deep_view() == o_pre.push(av));
                    assert(out@.len() == len_pre + 1);
                    assert forall|j: int| 0 <= j < out@.len() implies (
                    #[trigger] out.deep_view()[j]).id == bus_n0 + j by {
                        if j < len_pre {
                            assert(o_pre.push(av)[j] == o_pre[j]);
                        } else {
                            assert(o_pre.push(av)[j] == av);
                        }
                    }
                    if bus_n0 + base + ra <= 0x7fff_ffff_ffff_ffff {
                        assert(base >= 0);
                        assert(o_pre.len() == len_pre);
                        assert(len_pre == base + q);
                        assert(out.deep_view() == o_pre.push(av));
                        assert forall|p: int| 0 <= p < q + 1 implies is_rule_dispatch(
                            (#[trigger] out.deep_view()[base + p]),
                            info.deep_view(),
                            rule_alerts.deep_view()[p],
                        ) by {
                            if p < q {
                                assert(o_pre.push(av)[base + p] == o_pre[base + p]);
                            } else {
                                assert(o_pre.push(av)[base + p] == av);
                            }
                        }
                    }
                }
            },
            None => {
                proof {
                    if bus_n0 + base + ra <= 0x7fff_ffff_ffff_ffff {
                        assert(false);
                    }
                }
            },
        }
        q += 1;
    }
    proof {
        assert(rule_alerts.deep_view().take(ra as int) =~= rule_alerts.deep_view());
    }
}

/// Marks the token rugged for `reason`, records the verdict in the store,
/// and emits a critical rug alert.
fn trigger_rug(
    token: &mut WatchedToken,
    reason: &str,
    db: &mut DatabaseService,
    bus: &mut AlertService,
    out: &mut Vec<Alert>,
)
    requires
        old(db).wf(),
        old(bus).wf(),
    ensures
        final(token).deep_view() == (WatchedTokenV {
            is_rugged: true,
            rug_reason: Some(reason@),
            ..old(token).deep_view()
        }),
        final(db).wf(),
        final(bus).wf(),
        !crate::keyed::has_key(old(db).tokens_view(), old(token).deep_view().mint) ==> final(db).tokens_view() == old(db).tokens_view(),
        crate::keyed::has_key(old(db).tokens_view(), old(token).deep_view().mint) ==> final(db).tokens_view() == old(db).tokens_view().update(
            idx_of(old(db).tokens_view(), old(token).deep_view().mint),
            (crate::database::TokenRecordV {
                is_rugged: true,
                rug_reason: Some(reason@),
                ..old(db).tokens_view()[idx_of(old(db).tokens_view(), old(token).deep_view().mint)]
            }),
        ),
        final(db).transactions_view() == old(db).transactions_view(),
        final(db).wallets_view() == old(db).wallets_view(),
        final(db).alerts_view() == old(db).alerts_view(),
        old(bus).next_id_spec() < 0x7fff_ffff_ffff_ffff ==> {
            &&& final(out)@.len() == old(out)@.len() + 1
            &&& is_rug_dispatch(
                final(out)@.last().deep_view(),
                watched_info(old(token).deep_view()),
                reason@,
            )
            &&& final(out)@.last().deep_view().id == old(bus).next_id_spec()
            &&& final(bus).next_id_spec() == old(bus).next_id_spec() + 1
            &&& final(bus).history_view() == history_after(
                old(bus).history_view(),
                final(out)@.last().deep_view(),
            )
        },
        old(bus).next_id_spec() == 0x7fff_ffff_ffff_ffff ==> final(out)@ == old(out)@ && final(bus).history_view() == old(bus).history_view() && final(bus).next_id_spec() == old(bus).next_id_spec(),
        forall|j: int| 0 <= j < old(out)@.len() ==> (#[trigger] final(out)@[j]) == old(out)@[j],
        final(bus).next_id_spec() == old(bus).next_id_spec() + final(out)@.len() - old(out)@.len(),
{
    token.is_rugged = true;
    token.rug_reason = Some(reason.to_owned());
    db.mark_as_rugged(token.mint.as_str(), reason);
    let info = TokenAlertInfo {
        mint: token.mint.clone(),
        name: token.name.clone(),
        symbol: token.symbol.clone(),
        creator: token.creator.clone(),
        initial_liquidity: Some(token.initial_liquidity),
    };
    proof {
        assert(info.deep_view() =~= watched_info(old(token).deep_view()));
    }
    let ghost o0 = out@;
    match bus.alert_rug_pull(&info, reason, "critical") {
        Some(a) => {
            let ghost av = a.deep_view();
            out.push(a);
            proof {
                assert(out@ =~= o0.push(a));
            }
        },
        None => {},
    }
}


impl RugDetector {
    /// Handles the transaction behind a sell-classified event at `now_ms`.
    ///
    /// A sell of a watched token is recorded in its history (capped at 100)
    /// and the store, scored by the suspicious-pattern rules, and — at a
    /// score of 80 — marks the token rugged. The alerts the bus accepted are
    /// returned for delivery.
    #[verifier::rlimit(100)]
    pub fn analyze_sell_transaction(
        &mut self,
        tx: &DecodedTx,
        signature: &str,
        now_ms: i64,
        now_iso: String,
        db: &mut DatabaseService,
        bus: &mut AlertService,
    ) -> (r: Vec<Alert>)
        requires
            old(self).wf(),
            old(db).wf(),
            old(bus).wf(),
        ensures
            final(self).wf(),
            final(db).wf(),
            final(bus).wf(),
            final(self).thresholds_spec() == old(self).thresholds_spec(),
            final(self).tokens_watched_spec() == old(self).tokens_watched_spec(),
            final(self).running_spec() == old(self).running_spec(),
            final(db).wallets_view() == old(db).wallets_view(),
            final(db).alerts_view() == old(db).alerts_view(),
            final(bus).next_id_spec() == old(bus).next_id_spec() + r@.len(),
            final(bus).history_view() == history_after_all(
                old(bus).history_view(),
                r.deep_view(),
            ),
            spec_sell_of(*tx) is None ==> {
                &&& final(self).watched_view() == old(self).watched_view()
                &&& final(db).transactions_view() == old(db).transactions_view()
                &&& final(db).tokens_view() == old(db).tokens_view()
                &&& final(self).rugs_detected_spec() == old(self).rugs_detected_spec()
                &&& final(self).alerts_sent_spec() == old(self).alerts_sent_spec()
                &&& r@.len() == 0
            },
            spec_sell_of(*tx) matches Some(s) ==> (!has_key(old(self).watched_view(), s.mint)
                ==> {
                &&& final(self).watched_view() == old(self).watched_view()
                &&& final(db).transactions_view() == old(db).transactions_view()
                &&& final(db).tokens_view() == old(db).tokens_view()
                &&& final(self).rugs_detected_spec() == old(self).rugs_detected_spec()
                &&& final(self).alerts_sent_spec() == old(self).alerts_sent_spec()
                &&& r@.len() == 0
            }),
            spec_sell_of(*tx) matches Some(s) ==> (has_key(old(self).watched_view(), s.mint)
                ==> {
                let i = idx_of(old(self).watched_view(), s.mint);
                let t = old(self).watched_view()[i];
                let t2 = token_after_sell(t, s, signature@, now_ms, old(self).thresholds_spec());
                &&& final(self).watched_view() == old(self).watched_view().update(i, t2)
                &&& final(db).transactions_view() == insert_new(
                    old(db).transactions_view(),
                    (crate::database::TransactionRecordV {
                        signature: signature@,
                        mint: s.mint,
                        wallet: s.wallet,
                        tx_type: "sell"@,
                        amount_lamports: s.amount_lamports,
                        amount_tokens: s.amount_tokens,
                        timestamp: now_iso@,
                        timestamp_ms: now_ms,
                    }),
                )
                &&& t2.suspicion_score >= t.suspicion_score
                &&& (t.is_rugged ==> t2.is_rugged)
                &&& (t2.suspicion_score < 80 ==> final(db).tokens_view() == old(db).tokens_view()
                    && final(self).rugs_detected_spec() == old(self).rugs_detected_spec())
                &&& (t2.suspicion_score >= 80 ==> final(self).rugs_detected_spec() == (if old(self).rugs_detected_spec() < u64::MAX {
                    old(self).rugs_detected_spec() + 1
                } else {
                    old(self).rugs_detected_spec() as int
                }) && t2.is_rugged)
                &&& {
                    let h = appended_history(t.sell_history, sell_entry(signature@, s, now_ms));
                    let ra = rule_alerts_spec(t, h, s, now_ms, old(self).thresholds_spec());
                    let fired = t2.suspicion_score >= 80;
                    let foffset: int = if fired {
                        1int
                    } else {
                        0int
                    };
                    let count = foffset + ra.len();
                    &&& final(self).alerts_sent_spec() == (if old(self).alerts_sent_spec() + count
                        <= u64::MAX {
                        old(self).alerts_sent_spec() + count
                    } else {
                        u64::MAX as int
                    })
                    &&& (fired && has_key(old(db).tokens_view(), s.mint) ==> final(db).tokens_view()
                        == old(db).tokens_view().update(
                        idx_of(old(db).tokens_view(), s.mint),
                        (crate::database::TokenRecordV {
                            is_rugged: true,
                            rug_reason: Some("High suspicion score reached"@),
                            ..old(db).tokens_view()[idx_of(old(db).tokens_view(), s.mint)]
                        }),
                    ))
                    &&& (fired && !has_key(old(db).tokens_view(), s.mint) ==> final(db).tokens_view()
                        == old(db).tokens_view())
                    &&& (old(bus).next_id_spec() + count <= 0x7fff_ffff_ffff_ffff ==> {
                        &&& r@.len() == count
                        &&& (fired ==> is_rug_dispatch(
                            r.deep_view()[0],
                            watched_info(t),
                            "High suspicion score reached"@,
                        ))
                        &&& (forall|p: int|
                            0 <= p < ra.len() ==> is_rule_dispatch(
                                r.deep_view()[p + foffset],
                                watched_info(t),
                                #[trigger] ra[p],
                            ))
                        &&& (forall|j: int|
                            0 <= j < r@.len() ==> (#[trigger] r.deep_view()[j]).id == old(bus).next_id_spec() + j)
                    })
                }
            }),
    {
        let mut out: Vec<Alert> = Vec::new();
        let parsed = match parse_sell_transaction(tx) {
            Some(p) => p,
            None => {
                proof {
                    assert(out.deep_view() =~= Seq::<AlertV>::empty());
                }
                return out;
            },
        };
        let i = match watched_pos(&self.watched_tokens, parsed.mint.as_str()) {
            Some(i) => i,
            None => {
                proof {
                    assert(out.deep_view() =~= Seq::<AlertV>::empty());
                }
                return out;
            },
        };
        let ghost s = parsed.deep_view();
        let ghost t0 = self.watched_tokens.deep_view()[i as int];
        let th = self.thresholds;
        let mut token = clone_watched(&self.watched_tokens[i]);
        proof {
            assert(self.watched_tokens.deep_view()[i as int] == self.watched_tokens@[
                i as int].deep_view());
        }
        // Record the sell, oldest out past the cap.
        let entry = SellInfo {
            signature: signature.to_owned(),
            wallet: parsed.wallet.clone(),
            amount_lamports: parsed.amount_lamports,
            amount_tokens: parsed.amount_tokens,
            timestamp: now_ms,
        };
        let ghost h0 = token.sell_history.deep_view();
        let ghost ev = entry.deep_view();
        token.sell_history.push(entry);
        proof {
            assert(token.sell_history.deep_view() =~= h0.push(ev));
        }
        if token.sell_history.len() > 100 {
            let ghost h1 = token.sell_history.deep_view();
            token.sell_history.remove(0);
            proof {
                assert(token.sell_history.deep_view() =~= h1.remove(0));
                assert(h1.remove(0) =~= h1.drop_first());
            }
        }
        let ghost h = token.sell_history.deep_view();
        proof {
            assert(ev =~= sell_entry(signature@, s, now_ms));
            assert(h =~= appended_history(t0.sell_history, sell_entry(signature@, s, now_ms)));
        }
        // Persist the transaction row.
        db.save_transaction(
            TransactionRecord {
                signature: signature.to_owned(),
                mint: parsed.mint.clone(),
                wallet: parsed.wallet.clone(),
                tx_type: String::from_str("sell"),
                amount_lamports: parsed.amount_lamports,
                amount_tokens: parsed.amount_tokens,
                timestamp: now_iso.clone(),
                timestamp_ms: now_ms,
            },
        );
        // Suspicious-pattern rules.
        let mut rule_alerts: Vec<RugAlert> = Vec::new();
        let dev = str_eq(parsed.wallet.as_str(), token.dev_wallet.as_str());
        let dump = (parsed.amount_tokens as u128) * 100 >= (th.max_dev_sell_percent as u128)
            * 1_000_000_000;
        if dev && dump {
            let ph = crate::counter::sat_u64(
                (parsed.amount_tokens as u128) * 10000 / 1_000_000_000,
            );
            let mut msg = String::from_str("Developer sold ");
            let pct = format_fixed2(ph);
            msg.append(pct.as_str());
            msg.append("% of supply");
            proof {
                assert(msg@ =~= dev_dump_message(s.amount_tokens));
            }
            rule_alerts.push(
                RugAlert {
                    alert_type: String::from_str("dev_dump"),
                    message: msg,
                    severity: String::from_str("critical"),
                },
            );
            token.suspicion_score = crate::counter::bump_score(token.suspicion_score, 50);
        } else if dev && th.dev_wallet_sell_alert {
            let mut msg = String::from_str("Developer sold ");
            let sol = crate::text::format_sol4(parsed.amount_lamports);
            msg.append(sol.as_str());
            msg.append(" SOL worth");
            proof {
                assert(msg@ =~= dev_sell_message(s.amount_lamports));
            }
            rule_alerts.push(
                RugAlert {
                    alert_type: String::from_str("dev_sell"),
                    message: msg,
                    severity: String::from_str("medium"),
                },
            );
            token.suspicion_score = crate::counter::bump_score(token.suspicion_score, 20);
        }
        // Rapid selling over the window.
        proof {
            assert(t0.suspicion_score >= 0 && t0.sell_history.len() <= 100);
        }
        let hn = token.sell_history.len();
        let mut rc: usize = 0;
        let mut rt: u128 = 0;
        let mut k: usize = 0;
        while k < hn
            invariant
                hn == token.sell_history@.len(),
                h == token.sell_history.deep_view(),
                hn == h.len(),
                k <= hn,
                rc as int == recent_count(h.take(k as int), now_ms, th.min_time_between_sells),
                rt as int == recent_total(h.take(k as int), now_ms, th.min_time_between_sells),
                rc <= k,
                rt <= (k as int) * 0xffff_ffff_ffff_ffff,
            decreases hn - k,
        {
            let ghost pre = h.take(k as int);
            proof {
                assert(h[k as int] == token.sell_history@[k as int].deep_view());
                let next = h.take(k + 1);
                assert(next.drop_last() =~= pre);
                assert(next.last() == h[k as int]);
            }
            let ts = token.sell_history[k].timestamp;
            if (now_ms as i128) - (ts as i128) < (th.min_time_between_sells as i128) {
                rc = rc + 1;
                rt = rt + (token.sell_history[k].amount_lamports as u128);
            }
            k += 1;
        }
        proof {
            assert(h.take(hn as int) =~= h);
        }
        if rc >= 3 && 10 * rt > 3 * (token.initial_liquidity as u128) {
            let mut msg = String::from_str("Rapid selling detected: ");
            let sol = format_sol2(crate::counter::sat_u64(rt));
            msg.append(sol.as_str());
            msg.append(" SOL in ");
            let cnt = crate::text::u64_to_dec(rc as u64);
            msg.append(cnt.as_str());
            msg.append(" txs");
            proof {
                assert(msg@ =~= rapid_message(
                    recent_total(h, now_ms, th.min_time_between_sells),
                    recent_count(h, now_ms, th.min_time_between_sells),
                ));
            }
            rule_alerts.push(
                RugAlert {
                    alert_type: String::from_str("rapid_selling"),
                    message: msg,
                    severity: String::from_str("high"),
                },
            );
            token.suspicion_score = crate::counter::bump_score(token.suspicion_score, 30);
        }
        // Large single sell against current liquidity.
        proof {
            assert((token.current_liquidity as int) * (th.suspicious_sell_percent as int)
                <= u128::MAX) by (nonlinear_arith)
                requires
                    token.current_liquidity <= u64::MAX,
                    th.suspicious_sell_percent <= u64::MAX,
            ;
        }
        if token.current_liquidity > 0 && (parsed.amount_lamports as u128) * 100 > (
        token.current_liquidity as u128) * (th.suspicious_sell_percent as u128) {
            let tenths = crate::counter::sat_u64(
                (parsed.amount_lamports as u128) * 1000 / (token.current_liquidity as u128),
            );
            let mut msg = String::from_str("Large sell: ");
            let sol = crate::text::format_sol4(parsed.amount_lamports);
            msg.append(sol.as_str());
            msg.append(" SOL (");
            let pct = format_fixed1(tenths);
            msg.append(pct.as_str());
            msg.append("% of liquidity)");
            proof {
                assert(msg@ =~= large_sell_message(s.amount_lamports, t0.current_liquidity));
            }
            rule_alerts.push(
                RugAlert {
                    alert_type: String::from_str("large_sell"),
                    message: msg,
                    severity: String::from_str("medium"),
                },
            );
            token.suspicion_score = crate::counter::bump_score(token.suspicion_score, 15);
        }
        proof {
            assert(token.suspicion_score == sat_score_spec(
                t0.suspicion_score + score_delta(t0, h, s, now_ms, th),
            ));
        }
        // The rug threshold.
        let ghost bus_h0 = old(bus).history_view();
        let ghost bus_n0 = old(bus).next_id_spec();
        let ghost sent0 = old(self).alerts_sent;
        let ghost info_v = watched_info(t0);
        let fired = token.suspicion_score >= 80;
        let ghost foffset: int = if fired {
            1int
        } else {
            0int
        };
        if fired {
            trigger_rug(&mut token, "High suspicion score reached", db, bus, &mut out);
            self.rugs_detected = bump(self.rugs_detected);
            self.alerts_sent = bump(self.alerts_sent);
            proof {
                if bus_n0 < 0x7fff_ffff_ffff_ffff {
                    let av = out@.last().deep_view();
                    assert(out.deep_view() =~= Seq::<AlertV>::empty().push(av));
                    crate::alerts::lemma_history_after_all_push(
                        bus_h0,
                        Seq::<AlertV>::empty(),
                        av,
                    );
                    assert(history_after_all(bus_h0, Seq::<AlertV>::empty()) == bus_h0);
                } else {
                    assert(out.deep_view() =~= Seq::<AlertV>::empty());
                }
            }
        } else {
            proof {
                assert(out.deep_view() =~= Seq::<AlertV>::empty());
            }
        }
        // Record and dispatch the rule hits.
        let info = TokenAlertInfo {
            mint: token.mint.clone(),
            name: token.name.clone(),
            symbol: token.symbol.clone(),
            creator: token.creator.clone(),
            initial_liquidity: Some(token.initial_liquidity),
        };
        proof {
            assert(info.deep_view() =~= info_v);
        }
        let ghost a0 = token.alerts.deep_view();
        let ghost tmid = token.deep_view();
        let ghost out_mid = out.deep_view();
        proof {
            lemma_idx_of(old(self).watched_view(), s.mint);
            assert(t0.mint == s.mint);
            assert(bus.next_id_spec() == bus_n0 + out@.len());
            assert forall|j: int| 0 <= j < out@.len() implies (#[trigger] out.deep_view()[j]).id
                == bus_n0 + j by {
                assert(out.deep_view()[j] == out@[j].deep_view());
                assert(out@[j] == out@.last());
            }
        }
        dispatch_rule_hits(
            &info,
            &rule_alerts,
            &mut token,
            &mut self.alerts_sent,
            bus,
            &mut out,
            Ghost(bus_h0),
            Ghost(bus_n0 as int),
        );
        proof {
            assert(rule_alerts.deep_view() =~~= rule_alerts_spec(t0, h, s, now_ms, th));
            let ghost ra_spec = rule_alerts_spec(t0, h, s, now_ms, th);
            if bus_n0 + foffset + rule_alerts@.len() <= 0x7fff_ffff_ffff_ffff {
                assert(out_mid.len() == foffset);
                assert(out@.len() == foffset + rule_alerts@.len());
                if fired {
                    assert(out.deep_view()[0] == out@[0].deep_view());
                    assert(is_rug_dispatch(out_mid[0], info_v, "High suspicion score reached"@));
                    assert(out.deep_view()[0] == out_mid[0]);
                }
                assert forall|p: int| 0 <= p < ra_spec.len() implies is_rule_dispatch(
                    (#[trigger] out.deep_view()[p + foffset]),
                    info_v,
                    ra_spec[p],
                ) by {
                    assert(is_rule_dispatch(
                        out.deep_view()[out_mid.len() + p],
                        info.deep_view(),
                        rule_alerts.deep_view()[p],
                    ));
                    assert(rule_alerts.deep_view()[p] == ra_spec[p]);
                }
            }
            let spec_t2 = token_after_sell(t0, s, signature@, now_ms, th);
            assert(token.deep_view().sell_history =~~= spec_t2.sell_history);
            assert(token.deep_view().alerts =~~= spec_t2.alerts);
            assert(token.deep_view().suspicion_score == spec_t2.suspicion_score);
            assert(token.deep_view().is_rugged == spec_t2.is_rugged);
            assert(token.deep_view().rug_reason == spec_t2.rug_reason);
            assert(token.deep_view().mint == spec_t2.mint);
            assert(token.deep_view() =~= spec_t2);
        }
        let ghost w0 = self.watched_tokens.deep_view();
        let ghost t2 = token.deep_view();
        self.watched_tokens.set(i, token);
        proof {
            assert(self.watched_tokens.deep_view() =~= w0.update(i as int, t2));
            crate::keyed::lemma_unique_update(w0, i as int, t2);
        }
        out
    }
}


/// The health inspection trips: liquidity was positive and dropped by at
/// least `lp_removal_percent`.
pub open spec fn health_fires(t: WatchedTokenV, balance: u64, th: RugThresholds) -> bool {
    t.current_liquidity > 0 && (t.current_liquidity - balance) * 100 >= th.lp_removal_percent
        * t.current_liquidity
}

/// The reason recorded when the health inspection trips.
pub open spec fn health_reason(prev: u64, balance: u64) -> Seq<char> {
    "Liquidity dropped "@ + fixed1_seq(((prev - balance) * 1000 / prev as int) as nat) + "%"@
}

/// The token after a health inspection that was due: the reading becomes the
/// current liquidity, and a tripped inspection rugs the token.
pub open spec fn token_after_health(
    t: WatchedTokenV,
    balance: u64,
    now_ms: i64,
    th: RugThresholds,
) -> WatchedTokenV {
    let fired = health_fires(t, balance, th);
    WatchedTokenV {
        current_liquidity: balance,
        last_check: now_ms,
        is_rugged: t.is_rugged || fired,
        rug_reason: if fired {
            Some(health_reason(t.current_liquidity, balance))
        } else {
            t.rug_reason
        },
        ..t
    }
}

/// A liquidity withdrawal in this transaction trips for the token: the first
/// account lost more than `lp_removal_percent` of the token's current
/// liquidity.
pub open spec fn lp_fires(t: WatchedTokenV, tx: DecodedTx, th: RugThresholds) -> bool {
    &&& tx.pre_balances@.len() > 0
    &&& tx.post_balances@.len() > 0
    &&& t.current_liquidity > 0
    &&& (tx.pre_balances@[0] - tx.post_balances@[0]) * 100 > t.current_liquidity
        * th.lp_removal_percent
}

/// The first account's lamport loss in the transaction.
pub open spec fn lp_change_of(tx: DecodedTx) -> int {
    tx.pre_balances@[0] - tx.post_balances@[0]
}

/// The watched token after the liquidity-removal pass saw this transaction:
/// rugged, with the withdrawal as the reason, when [`lp_fires`] holds;
/// untouched otherwise.
pub open spec fn token_after_lp(t: WatchedTokenV, tx: DecodedTx, th: RugThresholds) -> WatchedTokenV {
    if lp_fires(t, tx, th) {
        WatchedTokenV {
            is_rugged: true,
            rug_reason: Some(lp_reason(lp_change_of(tx) as u64, t.current_liquidity)),
            ..t
        }
    } else {
        t
    }
}

/// How many of the named mints trip the removal rule against the watched set
/// (each occurrence counted).
pub open spec fn lp_fire_count(
    mints: Seq<Seq<char>>,
    w: Seq<WatchedTokenV>,
    tx: DecodedTx,
    th: RugThresholds,
) -> int
    decreases mints.len(),
{
    if mints.len() == 0 {
        0
    } else {
        lp_fire_count(mints.drop_last(), w, tx, th) + if has_key(w, mints.last()) && lp_fires(
            w[idx_of(w, mints.last())],
            tx,
            th,
        ) {
            1int
        } else {
            0int
        }
    }
}

proof fn lemma_lp_fire_count_bound(
    mints: Seq<Seq<char>>,
    w: Seq<WatchedTokenV>,
    tx: DecodedTx,
    th: RugThresholds,
)
    ensures
        0 <= lp_fire_count(mints, w, tx, th) <= mints.len(),
    decreases mints.len(),
{
    if mints.len() > 0 {
        lemma_lp_fire_count_bound(mints.drop_last(), w, tx, th);
    }
}

/// The reason recorded for a tripped liquidity withdrawal.
pub open spec fn lp_reason(lp_change: u64, current: u64) -> Seq<char> {
    "LP removed: "@ + sol2_seq(lp_change as nat) + " SOL ("@ + fixed1_seq(
        sat_u64_spec(lp_change as int * 1000 / current as int) as nat,
    ) + "%)"@
}

impl RugDetector {
    /// Applies a due liquidity reading to the watched token under `mint`.
    ///
    /// A reading within 25 seconds of the last inspection is skipped. An
    /// applied reading replaces the current liquidity; a drop of at least
    /// `lp_removal_percent` rugs the token.
    #[verifier::rlimit(100)]
    pub fn check_liquidity_health(
        &mut self,
        mint: &str,
        balance_lamports: u64,
        now_ms: i64,
        db: &mut DatabaseService,
        bus: &mut AlertService,
    ) -> (r: Vec<Alert>)
        requires
            old(self).wf(),
            old(db).wf(),
            old(bus).wf(),
        ensures
            final(self).wf(),
            final(db).wf(),
            final(bus).wf(),
            final(self).thresholds_spec() == old(self).thresholds_spec(),
            final(self).tokens_watched_spec() == old(self).tokens_watched_spec(),
            final(self).running_spec() == old(self).running_spec(),
            final(db).transactions_view() == old(db).transactions_view(),
            final(db).wallets_view() == old(db).wallets_view(),
            final(db).alerts_view() == old(db).alerts_view(),
            final(bus).next_id_spec() == old(bus).next_id_spec() + r@.len(),
            final(bus).history_view() == history_after_all(old(bus).history_view(), r.deep_view()),
            !has_key(old(self).watched_view(), mint@) ==> final(self).watched_view() == old(self).watched_view() && final(db).tokens_view() == old(db).tokens_view() && final(self).rugs_detected_spec() == old(self).rugs_detected_spec() && final(self).alerts_sent_spec() == old(self).alerts_sent_spec() && r@.len() == 0,
            has_key(old(self).watched_view(), mint@) ==> {
                let i = idx_of(old(self).watched_view(), mint@);
                let t = old(self).watched_view()[i];
                &&& (now_ms - t.last_check < 25000 ==> final(self).watched_view() == old(self).watched_view() && final(db).tokens_view() == old(db).tokens_view() && final(self).rugs_detected_spec() == old(self).rugs_detected_spec() && final(self).alerts_sent_spec() == old(self).alerts_sent_spec() && r@.len() == 0)
                &&& (now_ms - t.last_check >= 25000 ==> {
                    let t2 = token_after_health(
                        t,
                        balance_lamports,
                        now_ms,
                        old(self).thresholds_spec(),
                    );
                    &&& final(self).watched_view() == old(self).watched_view().update(i, t2)
                    &&& t2.suspicion_score == t.suspicion_score
                    &&& (t.is_rugged ==> t2.is_rugged)
                    &&& (!health_fires(t, balance_lamports, old(self).thresholds_spec()) ==> final(db).tokens_view() == old(db).tokens_view() && final(self).rugs_detected_spec()
                        == old(self).rugs_detected_spec() && final(self).alerts_sent_spec()
                        == old(self).alerts_sent_spec() && r@.len() == 0)
                    &&& (health_fires(t, balance_lamports, old(self).thresholds_spec())
                        ==> t2.is_rugged && final(self).rugs_detected_spec() == (if old(self).rugs_detected_spec() < u64::MAX {
                        old(self).rugs_detected_spec() + 1
                    } else {
                        old(self).rugs_detected_spec() as int
                    }) && final(self).alerts_sent_spec() == (if old(self).alerts_sent_spec()
                        < u64::MAX {
                        old(self).alerts_sent_spec() + 1
                    } else {
                        old(self).alerts_sent_spec() as int
                    }) && (has_key(old(db).tokens_view(), mint@) ==> final(db).tokens_view()
                        == old(db).tokens_view().update(
                        idx_of(old(db).tokens_view(), mint@),
                        (crate::database::TokenRecordV {
                            is_rugged: true,
                            rug_reason: Some(
                                health_reason(t.current_liquidity, balance_lamports),
                            ),
                            ..old(db).tokens_view()[idx_of(old(db).tokens_view(), mint@)]
                        }),
                    )) && (!has_key(old(db).tokens_view(), mint@) ==> final(db).tokens_view()
                        == old(db).tokens_view()) && (old(bus).next_id_spec()
                        < 0x7fff_ffff_ffff_ffff ==> r@.len() == 1 && is_rug_dispatch(
                        r.deep_view()[0],
                        watched_info(t),
                        health_reason(t.current_liquidity, balance_lamports),
                    ) && r.deep_view()[0].id == old(bus).next_id_spec()))
                })
            },
    {
        let mut out: Vec<Alert> = Vec::new();
        let i = match watched_pos(&self.watched_tokens, mint) {
            Some(i) => i,
            None => {
                proof {
                    assert(out.deep_view() =~= Seq::<AlertV>::empty());
                }
                return out;
            },
        };
        let ghost t0 = self.watched_tokens.deep_view()[i as int];
        let th = self.thresholds;
        let mut token = clone_watched(&self.watched_tokens[i]);
        proof {
            assert(self.watched_tokens.deep_view()[i as int] == self.watched_tokens@[
                i as int].deep_view());
            lemma_idx_of(self.watched_tokens.deep_view(), mint@);
            assert(t0.mint == mint@);
        }
        if (now_ms as i128) - (token.last_check as i128) < 25000 {
            proof {
                assert(out.deep_view() =~= Seq::<AlertV>::empty());
            }
            return out;
        }
        let prev = token.current_liquidity;
        token.current_liquidity = balance_lamports;
        token.last_check = now_ms;
        proof {
            assert((t0.current_liquidity as int) * (th.lp_removal_percent as int) <= u128::MAX)
                by (nonlinear_arith)
                requires
                    t0.current_liquidity <= u64::MAX,
                    th.lp_removal_percent <= u64::MAX,
            ;
        }
        let fired = prev > 0 && balance_lamports <= prev && ((prev - balance_lamports) as u128)
            * 100 >= (prev as u128) * (th.lp_removal_percent as u128);
        proof {
            assert((th.lp_removal_percent as int) * (t0.current_liquidity as int) >= 0)
                by (nonlinear_arith)
                requires
                    th.lp_removal_percent >= 0,
                    t0.current_liquidity >= 0,
            ;
            assert((prev as int) * (th.lp_removal_percent as int) == (
            th.lp_removal_percent as int) * (t0.current_liquidity as int)) by (nonlinear_arith)
                requires
                    prev == t0.current_liquidity,
            ;
            assert(fired == health_fires(t0, balance_lamports, th));
        }
        if fired {
            let tenths = ((prev - balance_lamports) as u128) * 1000 / (prev as u128);
            let mut reason = String::from_str("Liquidity dropped ");
            let pct = format_fixed1(crate::counter::sat_u64(tenths));
            reason.append(pct.as_str());
            reason.append("%");
            proof {
                assert((t0.current_liquidity - balance_lamports) * 1000 / (
                t0.current_liquidity as int) <= 1000) by (nonlinear_arith)
                    requires
                        t0.current_liquidity > 0,
                        balance_lamports <= t0.current_liquidity,
                ;
                assert(reason@ =~= health_reason(t0.current_liquidity, balance_lamports));
            }
            let ghost bus_n0 = old(bus).next_id_spec();
            trigger_rug(&mut token, reason.as_str(), db, bus, &mut out);
            self.rugs_detected = bump(self.rugs_detected);
            self.alerts_sent = bump(self.alerts_sent);
            proof {
                if bus_n0 < 0x7fff_ffff_ffff_ffff {
                    let av = out@.last().deep_view();
                    assert(out.deep_view() =~= Seq::<AlertV>::empty().push(av));
                    crate::alerts::lemma_history_after_all_push(
                        old(bus).history_view(),
                        Seq::<AlertV>::empty(),
                        av,
                    );
                    assert(history_after_all(old(bus).history_view(), Seq::<AlertV>::empty())
                        == old(bus).history_view());
                    assert(out.deep_view()[0] == av);
                } else {
                    assert(out.deep_view() =~= Seq::<AlertV>::empty());
                }
            }
        } else {
            proof {
                assert(out.deep_view() =~= Seq::<AlertV>::empty());
            }
        }
        proof {
            assert(token.deep_view() =~~= token_after_health(t0, balance_lamports, now_ms, th));
        }
        let ghost w0 = self.watched_tokens.deep_view();
        let ghost t2 = token.deep_view();
        self.watched_tokens.set(i, token);
        proof {
            assert(self.watched_tokens.deep_view() =~= w0.update(i as int, t2));
            crate::keyed::lemma_unique_update(w0, i as int, t2);
        }
        out
    }
}



impl RugDetector {
    /// Handles the transaction behind an event that looks like a liquidity
    /// removal: every watched token named in the pre-transaction token
    /// balances whose current liquidity the withdrawal exceeds by the
    /// configured share is rugged, with the withdrawal recorded as the
    /// reason, the store row marked, and a critical alert dispatched per hit.
    #[verifier::rlimit(100)]
    pub fn analyze_lp_removal(
        &mut self,
        tx: &DecodedTx,
        db: &mut DatabaseService,
        bus: &mut AlertService,
    ) -> (r: Vec<Alert>)
        requires
            old(self).wf(),
            old(db).wf(),
            old(bus).wf(),
        ensures
            final(self).wf(),
            final(db).wf(),
            final(bus).wf(),
            final(self).thresholds_spec() == old(self).thresholds_spec(),
            final(self).tokens_watched_spec() == old(self).tokens_watched_spec(),
            final(self).running_spec() == old(self).running_spec(),
            final(db).transactions_view() == old(db).transactions_view(),
            final(db).wallets_view() == old(db).wallets_view(),
            final(db).alerts_view() == old(db).alerts_view(),
            final(bus).next_id_spec() == old(bus).next_id_spec() + r@.len(),
            final(bus).history_view() == history_after_all(old(bus).history_view(), r.deep_view()),
            final(self).watched_view().len() == old(self).watched_view().len(),
            forall|k: int|
                0 <= k < old(self).watched_view().len() && tx.pre_token_mints.deep_view().contains(
                    (#[trigger] old(self).watched_view()[k]).mint,
                ) ==> final(self).watched_view()[k] == token_after_lp(
                    old(self).watched_view()[k],
                    *tx,
                    old(self).thresholds_spec(),
                ),
            forall|k: int|
                0 <= k < old(self).watched_view().len() && !tx.pre_token_mints.deep_view().contains(
                    (#[trigger] old(self).watched_view()[k]).mint,
                ) ==> final(self).watched_view()[k] == old(self).watched_view()[k],
            final(self).rugs_detected_spec() == (if old(self).rugs_detected_spec() + lp_fire_count(
                tx.pre_token_mints.deep_view(),
                old(self).watched_view(),
                *tx,
                old(self).thresholds_spec(),
            ) <= u64::MAX {
                old(self).rugs_detected_spec() + lp_fire_count(
                    tx.pre_token_mints.deep_view(),
                    old(self).watched_view(),
                    *tx,
                    old(self).thresholds_spec(),
                )
            } else {
                u64::MAX as int
            }),
            final(self).alerts_sent_spec() == (if old(self).alerts_sent_spec() + lp_fire_count(
                tx.pre_token_mints.deep_view(),
                old(self).watched_view(),
                *tx,
                old(self).thresholds_spec(),
            ) <= u64::MAX {
                old(self).alerts_sent_spec() + lp_fire_count(
                    tx.pre_token_mints.deep_view(),
                    old(self).watched_view(),
                    *tx,
                    old(self).thresholds_spec(),
                )
            } else {
                u64::MAX as int
            }),
            forall|k: int|
                0 <= k < old(self).watched_view().len() && tx.pre_token_mints.deep_view().contains(
                    (#[trigger] old(self).watched_view()[k]).mint,
                ) && lp_fires(old(self).watched_view()[k], *tx, old(self).thresholds_spec())
                    && has_key(old(db).tokens_view(), old(self).watched_view()[k].mint) ==> final(db).tokens_view()[idx_of(old(db).tokens_view(), old(self).watched_view()[k].mint)]
                    == (crate::database::TokenRecordV {
                    is_rugged: true,
                    rug_reason: Some(
                        lp_reason(
                            lp_change_of(*tx) as u64,
                            old(self).watched_view()[k].current_liquidity,
                        ),
                    ),
                    ..old(db).tokens_view()[idx_of(
                        old(db).tokens_view(),
                        old(self).watched_view()[k].mint,
                    )]
                }),
            forall|j: int|
                0 <= j < old(db).tokens_view().len() && !(has_key(
                    old(self).watched_view(),
                    (#[trigger] old(db).tokens_view()[j]).mint,
                ) && tx.pre_token_mints.deep_view().contains(old(db).tokens_view()[j].mint)
                    && lp_fires(
                    old(self).watched_view()[idx_of(
                        old(self).watched_view(),
                        old(db).tokens_view()[j].mint,
                    )],
                    *tx,
                    old(self).thresholds_spec(),
                )) ==> final(db).tokens_view()[j] == old(db).tokens_view()[j],
            old(bus).next_id_spec() + tx.pre_token_mints.deep_view().len()
                <= 0x7fff_ffff_ffff_ffff ==> {
                &&& r@.len() == lp_fire_count(
                    tx.pre_token_mints.deep_view(),
                    old(self).watched_view(),
                    *tx,
                    old(self).thresholds_spec(),
                )
                &&& forall|q: int|
                    0 <= q < r@.len() ==> (#[trigger] r.deep_view()[q]).id == old(bus).next_id_spec() + q
                &&& forall|q: int|
                    0 <= q < r@.len() ==> exists|k: int|
                        0 <= k < old(self).watched_view().len()
                            && tx.pre_token_mints.deep_view().contains(
                            (#[trigger] old(self).watched_view()[k]).mint,
                        ) && lp_fires(
                            old(self).watched_view()[k],
                            *tx,
                            old(self).thresholds_spec(),
                        ) && is_rug_dispatch(
                            (#[trigger] r.deep_view()[q]),
                            watched_info(old(self).watched_view()[k]),
                            lp_reason(
                                lp_change_of(*tx) as u64,
                                old(self).watched_view()[k].current_liquidity,
                            ),
                        )
            },
    {
        let mut out: Vec<Alert> = Vec::new();
        let ghost old_w = old(self).watched_view();
        let ghost old_db = old(db).tokens_view();
        let ghost th_g = old(self).thresholds_spec();
        let ghost mints_dv = tx.pre_token_mints.deep_view();
        let ghost bus_h0 = old(bus).history_view();
        let ghost bus_n0 = old(bus).next_id_spec() as int;
        let ghost rugs0 = self.rugs_detected;
        let ghost sent0 = self.alerts_sent;
        let th = self.thresholds;
        proof {
            assert(out.deep_view() =~= Seq::<AlertV>::empty());
            crate::database::lemma_store_keys_unique(*old(db));
        }
        let nm = tx.pre_token_mints.len();
        let mut m: usize = 0;
        while m < nm
            invariant
                nm == tx.pre_token_mints@.len(),
                m <= nm,
                mints_dv == tx.pre_token_mints.deep_view(),
                old_w == old(self).watched_view(),
                old_db == old(db).tokens_view(),
                th == th_g,
                th_g == old(self).thresholds_spec(),
                rugs0 == old(self).rugs_detected_spec(),
                sent0 == old(self).alerts_sent_spec(),
                bus_h0 == old(bus).history_view(),
                bus_n0 == old(bus).next_id_spec() as int,
                self.wf(),
                db.wf(),
                bus.wf(),
                unique_keys(old_w),
                unique_keys(old_db),
                self.thresholds == old(self).thresholds,
                self.tokens_watched == old(self).tokens_watched,
                self.is_running == old(self).is_running,
                db.transactions_view() == old(db).transactions_view(),
                db.wallets_view() == old(db).wallets_view(),
                db.alerts_view() == old(db).alerts_view(),
                self.watched_tokens.deep_view().len() == old_w.len(),
                db.tokens_view().len() == old_db.len(),
                forall|k: int|
                    0 <= k < old_w.len() ==> (#[trigger] self.watched_tokens.deep_view()[k]).mint
                        == old_w[k].mint && self.watched_tokens.deep_view()[k].current_liquidity
                        == old_w[k].current_liquidity,
                forall|j: int|
                    0 <= j < old_db.len() ==> (#[trigger] db.tokens_view()[j]).mint
                        == old_db[j].mint,
                forall|k: int, j: int|
                    0 <= k < old_w.len() && 0 <= j < m && (#[trigger] mints_dv[j]) == (
                    #[trigger] old_w[k]).mint ==> self.watched_tokens.deep_view()[k]
                        == token_after_lp(old_w[k], *tx, th_g),
                forall|k: int|
                    0 <= k < old_w.len() && !mints_dv.take(m as int).contains(
                        (#[trigger] old_w[k]).mint,
                    ) ==> self.watched_tokens.deep_view()[k] == old_w[k],
                self.rugs_detected as int == (if rugs0 + lp_fire_count(
                    mints_dv.take(m as int),
                    old_w,
                    *tx,
                    th_g,
                ) <= u64::MAX {
                    rugs0 + lp_fire_count(mints_dv.take(m as int), old_w, *tx, th_g)
                } else {
                    u64::MAX as int
                }),
                self.alerts_sent as int == (if sent0 + lp_fire_count(
                    mints_dv.take(m as int),
                    old_w,
                    *tx,
                    th_g,
                ) <= u64::MAX {
                    sent0 + lp_fire_count(mints_dv.take(m as int), old_w, *tx, th_g)
                } else {
                    u64::MAX as int
                }),
                forall|k: int, j: int|
                    0 <= k < old_w.len() && 0 <= j < m && (#[trigger] mints_dv[j]) == (
                    #[trigger] old_w[k]).mint && lp_fires(old_w[k], *tx, th_g) && has_key(
                        old_db,
                        old_w[k].mint,
                    ) ==> db.tokens_view()[idx_of(old_db, old_w[k].mint)] == (
                    crate::database::TokenRecordV {
                        is_rugged: true,
                        rug_reason: Some(
                            lp_reason(lp_change_of(*tx) as u64, old_w[k].current_liquidity),
                        ),
                        ..old_db[idx_of(old_db, old_w[k].mint)]
                    }),
                forall|j: int|
                    0 <= j < old_db.len() && !(has_key(old_w, (#[trigger] old_db[j]).mint)
                        && mints_dv.take(m as int).contains(old_db[j].mint) && lp_fires(
                        old_w[idx_of(old_w, old_db[j].mint)],
                        *tx,
                        th_g,
                    )) ==> db.tokens_view()[j] == old_db[j],
                bus.history_view() == history_after_all(bus_h0, out.deep_view()),
                bus.next_id_spec() == bus_n0 + out@.len(),
                forall|q: int|
                    0 <= q < out@.len() ==> (#[trigger] out.deep_view()[q]).id == bus_n0 + q,
                bus_n0 + nm <= 0x7fff_ffff_ffff_ffff ==> out@.len() == lp_fire_count(
                    mints_dv.take(m as int),
                    old_w,
                    *tx,
                    th_g,
                ),
                forall|q: int|
                    0 <= q < out@.len() ==> exists|k: int|
                        0 <= k < old_w.len() && mints_dv.contains((#[trigger] old_w[k]).mint)
                            && lp_fires(old_w[k], *tx, th_g) && is_rug_dispatch(
                            (#[trigger] out.deep_view()[q]),
                            watched_info(old_w[k]),
                            lp_reason(lp_change_of(*tx) as u64, old_w[k].current_liquidity),
                        ),
            decreases nm - m,
        {
            proof {
                assert(tx.pre_token_mints.deep_view()[m as int] == tx.pre_token_mints@[m as int]@);
                assert(mints_dv.take(m + 1).drop_last() =~= mints_dv.take(m as int));
                assert(mints_dv.take(m + 1).last() == mints_dv[m as int]);
            }
            let ghost key = mints_dv[m as int];
            let pos = watched_pos(&self.watched_tokens, tx.pre_token_mints[m].as_str());
            match pos {
                Some(i) => {
                    let ghost tcur = self.watched_tokens.deep_view()[i as int];
                    let ghost t0 = old_w[i as int];
                    proof {
                        lemma_idx_of(self.watched_tokens.deep_view(), key);
                        assert(self.watched_tokens.deep_view()[i as int].key() == key);
                        assert(tcur.mint == key);
                        assert(t0.mint == key);
                        assert(tcur.current_liquidity == t0.current_liquidity);
                        crate::keyed::lemma_idx_of_unique(old_w, key, i as int);
                        assert((tcur.current_liquidity as int) * (th.lp_removal_percent as int)
                            <= u128::MAX) by (nonlinear_arith)
                            requires
                                tcur.current_liquidity <= u64::MAX,
                                th.lp_removal_percent <= u64::MAX,
                        ;
                    }
                    let mut token = clone_watched(&self.watched_tokens[i]);
                    proof {
                        assert(self.watched_tokens.deep_view()[i as int] == self.watched_tokens@[
                            i as int].deep_view());
                    }
                    let have_balances = tx.pre_balances.len() > 0 && tx.post_balances.len() > 0;
                    let fired = have_balances && tx.pre_balances[0] > tx.post_balances[0]
                        && token.current_liquidity > 0 && ((tx.pre_balances[0]
                        - tx.post_balances[0]) as u128) * 100 > (token.current_liquidity as u128)
                        * (th.lp_removal_percent as u128);
                    proof {
                        assert((th.lp_removal_percent as int) * (t0.current_liquidity as int) >= 0)
                            by (nonlinear_arith)
                            requires
                                th.lp_removal_percent >= 0,
                                t0.current_liquidity >= 0,
                        ;
                        assert(fired == lp_fires(t0, *tx, th_g));
                    }
                    if fired {
                        let lp_change = tx.pre_balances[0] - tx.post_balances[0];
                        proof {
                            assert(lp_change == lp_change_of(*tx));
                        }
                        let tenths = crate::counter::sat_u64(
                            (lp_change as u128) * 1000 / (token.current_liquidity as u128),
                        );
                        let mut reason = String::from_str("LP removed: ");
                        let sol = format_sol2(lp_change);
                        reason.append(sol.as_str());
                        reason.append(" SOL (");
                        let pct = format_fixed1(tenths);
                        reason.append(pct.as_str());
                        reason.append("%)");
                        proof {
                            assert(reason@ =~= lp_reason(lp_change, t0.current_liquidity));
                        }
                        let ghost out_pre = out.deep_view();
                        let ghost len_pre = out@.len() as int;
                        let ghost dbt_pre = db.tokens_view();
                        trigger_rug(&mut token, reason.as_str(), db, bus, &mut out);
                        self.rugs_detected = bump(self.rugs_detected);
                        self.alerts_sent = bump(self.alerts_sent);
                        proof {
                            if bus_n0 + len_pre < 0x7fff_ffff_ffff_ffff {
                                let av = out@.last().deep_view();
                                assert(out.deep_view() =~= out_pre.push(av));
                                crate::alerts::lemma_history_after_all_push(bus_h0, out_pre, av);
                                assert(watched_info(tcur) =~= watched_info(t0));
                            }
                        }
                        let ghost w0 = self.watched_tokens.deep_view();
                        let ghost t2 = token.deep_view();
                        self.watched_tokens.set(i, token);
                        proof {
                            assert(self.watched_tokens.deep_view() =~= w0.update(i as int, t2));
                            crate::keyed::lemma_unique_update(w0, i as int, t2);
                            assert(t2 =~= token_after_lp(t0, *tx, th_g));
                            // The store row holding this mint, if any, is marked.
                            crate::keyed::lemma_idx_of(old_db, key);
                            crate::keyed::lemma_idx_of_same_keys(dbt_pre, old_db, key);
                            if has_key(old_db, key) {
                                let jd = idx_of(old_db, key);
                                assert(old_db[jd].key() == key);
                                assert(dbt_pre[jd].mint == key);
                                assert(db.tokens_view() == dbt_pre.update(
                                    jd,
                                    (crate::database::TokenRecordV {
                                        is_rugged: true,
                                        rug_reason: Some(reason@),
                                        ..dbt_pre[jd]
                                    }),
                                ));
                                if mints_dv.take(m as int).contains(key) {
                                    let j0 = choose|j0: int|
                                        0 <= j0 < m && mints_dv.take(m as int)[j0] == key;
                                    assert(mints_dv[j0] == old_w[i as int].mint);
                                    assert(dbt_pre[jd] == (crate::database::TokenRecordV {
                                        is_rugged: true,
                                        rug_reason: Some(
                                            lp_reason(
                                                lp_change_of(*tx) as u64,
                                                t0.current_liquidity,
                                            ),
                                        ),
                                        ..old_db[jd]
                                    }));
                                } else {
                                    assert(old_db[jd].mint == key);
                                    assert(idx_of(old_w, old_db[jd].mint) == i as int);
                                    assert(dbt_pre[jd] == old_db[jd]);
                                }
                                assert(db.tokens_view()[jd] =~= (
                                crate::database::TokenRecordV {
                                    is_rugged: true,
                                    rug_reason: Some(
                                        lp_reason(lp_change_of(*tx) as u64, t0.current_liquidity),
                                    ),
                                    ..old_db[jd]
                                }));
                                assert forall|k2: int, j2: int|
                                    0 <= k2 < old_w.len() && 0 <= j2 < m + 1 && (
                                    #[trigger] mints_dv[j2]) == (#[trigger] old_w[k2]).mint
                                        && lp_fires(old_w[k2], *tx, th_g) && has_key(
                                        old_db,
                                        old_w[k2].mint,
                                    ) implies db.tokens_view()[idx_of(old_db, old_w[k2].mint)]
                                        == (crate::database::TokenRecordV {
                                        is_rugged: true,
                                        rug_reason: Some(
                                            lp_reason(
                                                lp_change_of(*tx) as u64,
                                                old_w[k2].current_liquidity,
                                            ),
                                        ),
                                        ..old_db[idx_of(old_db, old_w[k2].mint)]
                                    }) by {
                                    crate::keyed::lemma_idx_of(old_db, old_w[k2].mint);
                                    let jk = idx_of(old_db, old_w[k2].mint);
                                    if jk == jd {
                                        assert(old_db[jk].key() == old_w[k2].mint);
                                        assert(old_w[k2].mint == key);
                                        crate::keyed::lemma_idx_of_unique(
                                            old_w,
                                            key,
                                            k2,
                                        );
                                        assert(k2 == i as int);
                                    } else {
                                        assert(db.tokens_view()[jk] == dbt_pre[jk]);
                                    }
                                }
                            } else {
                                assert(db.tokens_view() == dbt_pre);
                            }
                            assert forall|j2: int|
                                0 <= j2 < old_db.len() && !(has_key(old_w, (
                                #[trigger] old_db[j2]).mint) && mints_dv.take(m + 1).contains(
                                    old_db[j2].mint,
                                ) && lp_fires(
                                    old_w[idx_of(old_w, old_db[j2].mint)],
                                    *tx,
                                    th_g,
                                )) implies db.tokens_view()[j2] == old_db[j2] by {
                                if has_key(old_db, key) && j2 == idx_of(old_db, key) {
                                    assert(old_db[j2].key() == key);
                                    assert(has_key(old_w, key));
                                    assert(idx_of(old_w, key) == i as int);
                                    assert(mints_dv.take(m + 1)[m as int] == key);
                                    assert(mints_dv.take(m + 1).contains(old_db[j2].mint));
                                } else {
                                    assert(db.tokens_view()[j2] == dbt_pre[j2]);
                                    assert(!(mints_dv.take(m as int).contains(old_db[j2].mint)
                                        && has_key(old_w, old_db[j2].mint) && lp_fires(
                                        old_w[idx_of(old_w, old_db[j2].mint)],
                                        *tx,
                                        th_g,
                                    )) ==> dbt_pre[j2] == old_db[j2]);
                                }
                            }
                            // The remaining invariants: the new occurrence fires.
                            assert(idx_of(old_w, key) == i as int);
                            assert(lp_fire_count(mints_dv.take(m + 1), old_w, *tx, th_g)
                                == lp_fire_count(mints_dv.take(m as int), old_w, *tx, th_g) + 1);
                            if bus_n0 + nm <= 0x7fff_ffff_ffff_ffff {
                                lemma_lp_fire_count_bound(
                                    mints_dv.take(m as int),
                                    old_w,
                                    *tx,
                                    th_g,
                                );
                                assert(len_pre <= m as int);
                                assert(bus_n0 + len_pre < 0x7fff_ffff_ffff_ffff);
                                assert(out@.len() == len_pre + 1);
                            }
                            assert forall|k2: int, j2: int|
                                0 <= k2 < old_w.len() && 0 <= j2 < m + 1 && (
                                #[trigger] mints_dv[j2]) == (#[trigger] old_w[k2]).mint implies
                                self.watched_tokens.deep_view()[k2] == token_after_lp(
                                old_w[k2],
                                *tx,
                                th_g,
                            ) by {
                                if k2 != i as int {
                                    assert(self.watched_tokens.deep_view()[k2] == w0[k2]);
                                    if j2 == m {
                                        crate::keyed::lemma_idx_of_unique(old_w, key, k2);
                                    }
                                }
                            }
                        }
                    } else {
                        proof {
                            if mints_dv.take(m as int).contains(key) {
                                let j0 = choose|j0: int|
                                    0 <= j0 < m && mints_dv.take(m as int)[j0] == key;
                                assert(mints_dv[j0] == old_w[i as int].mint);
                            } else {
                                assert(self.watched_tokens.deep_view()[i as int] == old_w[
                                    i as int]);
                            }
                            assert(self.watched_tokens.deep_view()[i as int] == token_after_lp(
                                t0,
                                *tx,
                                th_g,
                            ));
                            assert(idx_of(old_w, key) == i as int);
                            assert(lp_fire_count(mints_dv.take(m + 1), old_w, *tx, th_g)
                                == lp_fire_count(mints_dv.take(m as int), old_w, *tx, th_g));
                            assert forall|k2: int, j2: int|
                                0 <= k2 < old_w.len() && 0 <= j2 < m + 1 && (
                                #[trigger] mints_dv[j2]) == (#[trigger] old_w[k2]).mint implies
                                self.watched_tokens.deep_view()[k2] == token_after_lp(
                                old_w[k2],
                                *tx,
                                th_g,
                            ) by {
                                if j2 == m {
                                    crate::keyed::lemma_idx_of_unique(old_w, key, k2);
                                }
                            }
                            assert forall|k2: int, j2: int|
                                0 <= k2 < old_w.len() && 0 <= j2 < m + 1 && (
                                #[trigger] mints_dv[j2]) == (#[trigger] old_w[k2]).mint
                                    && lp_fires(old_w[k2], *tx, th_g) && has_key(
                                    old_db,
                                    old_w[k2].mint,
                                ) implies db.tokens_view()[idx_of(old_db, old_w[k2].mint)] == (
                                crate::database::TokenRecordV {
                                    is_rugged: true,
                                    rug_reason: Some(
                                        lp_reason(
                                            lp_change_of(*tx) as u64,
                                            old_w[k2].current_liquidity,
                                        ),
                                    ),
                                    ..old_db[idx_of(old_db, old_w[k2].mint)]
                                }) by {
                                if j2 == m {
                                    crate::keyed::lemma_idx_of_unique(old_w, key, k2);
                                }
                            }
                        }
                    }
                },
                None => {
                    proof {
                        let scur = self.watched_tokens.deep_view();
                        lemma_idx_of(scur, key);
                        assert forall|k: int| 0 <= k < old_w.len() implies (
                        #[trigger] old_w[k]).mint != key by {
                            assert(scur[k].key() == scur[k].mint);
                            assert(scur[k].mint == old_w[k].mint);
                        }
                        lemma_idx_of(old_w, key);
                        if idx_of(old_w, key) >= 0 {
                            assert(old_w[idx_of(old_w, key)].key() == key);
                        }
                        assert(!has_key(old_w, key));
                        assert(lp_fire_count(mints_dv.take(m + 1), old_w, *tx, th_g)
                            == lp_fire_count(mints_dv.take(m as int), old_w, *tx, th_g));
                        assert forall|k2: int, j2: int|
                            0 <= k2 < old_w.len() && 0 <= j2 < m + 1 && (
                            #[trigger] mints_dv[j2]) == (#[trigger] old_w[k2]).mint implies self
                            .watched_tokens
                            .deep_view()[k2] == token_after_lp(old_w[k2], *tx, th_g) by {
                            if j2 == m {
                                assert(old_w[k2].mint != key);
                            }
                        }
                    }
                },
            }
            m += 1;
        }
        proof {
            assert(mints_dv.take(nm as int) =~= mints_dv);
            assert forall|k: int|
                0 <= k < old_w.len() && mints_dv.contains((#[trigger] old_w[k]).mint) implies self
                .watched_tokens
                .deep_view()[k] == token_after_lp(old_w[k], *tx, th_g) by {
                let j = choose|j: int| 0 <= j < mints_dv.len() && mints_dv[j] == old_w[k].mint;
                assert(mints_dv[j] == old_w[k].mint);
            }
        }
        out
    }
}


} // verus!
