//! The whale tracker: wallet volumes, per-token flow windows, and promotion
//! to whale status.
//!
//! Every buy or sell updates one wallet entry (volume is monotone, whale
//! status sticky) and one token-movement window, purged of entries older
//! than the accumulation window on every update.

use vstd::prelude::*;
use vstd::seq_lib::group_to_multiset_ensures;
use crate::alerts::{
    Alert, AlertService, AlertV, TokenAlertInfo, TokenAlertInfoV, history_after_all,
    whale_message,
};
use crate::database::{DatabaseService, TransactionRecord, WalletRecord};
use crate::keyed::{
    Keyed, has_key, idx_of, insert_new, lemma_idx_of, lemma_unique_remove, lemma_upsert_unique,
    unique_keys, upsert,
};
use crate::text::{str_eq, string_list_contains};
use crate::tx::{DecodedTx, first_balance_delta, first_signature, spec_first_delta};
use crate::config::Config;
use crate::counter::{add_saturating, bump};

verus! {

broadcast use group_to_multiset_ensures;

/// One tracked transaction.
#[derive(Debug)]
pub struct TxInfo {
    pub signature: String,
    pub wallet: String,
    pub mint: String,
    /// "buy" or "sell".
    pub tx_type: String,
    /// Lamports moved.
    pub amount_lamports: u64,
    /// Raw token units moved.
    pub amount_tokens: u64,
    /// Epoch milliseconds.
    pub timestamp: i64,
}

/// Spec-level image of a [`TxInfo`].
#[verifier::ext_equal]
pub struct TxInfoV {
    pub signature: Seq<char>,
    pub wallet: Seq<char>,
    pub mint: Seq<char>,
    pub tx_type: Seq<char>,
    pub amount_lamports: u64,
    pub amount_tokens: u64,
    pub timestamp: i64,
}

impl DeepView for TxInfo {
    type V = TxInfoV;

    open spec fn deep_view(&self) -> TxInfoV {
        TxInfoV {
            signature: self.signature@,
            wallet: self.wallet@,
            mint: self.mint@,
            tx_type: self.tx_type@,
            amount_lamports: self.amount_lamports,
            amount_tokens: self.amount_tokens,
            timestamp: self.timestamp,
        }
    }
}

/// Copies a tracked transaction field by field.
pub fn clone_tx_info(t: &TxInfo) -> (r: TxInfo)
    ensures
        r.deep_view() == t.deep_view(),
{
    TxInfo {
        signature: t.signature.clone(),
        wallet: t.wallet.clone(),
        mint: t.mint.clone(),
        tx_type: t.tx_type.clone(),
        amount_lamports: t.amount_lamports,
        amount_tokens: t.amount_tokens,
        timestamp: t.timestamp,
    }
}

/// Copies a list of tracked transactions.
fn clone_tx_list(v: &Vec<TxInfo>) -> (r: Vec<TxInfo>)
    ensures
        r.deep_view() == v.deep_view(),
{
    let n = v.len();
    let mut out: Vec<TxInfo> = Vec::new();
    let mut i: usize = 0;
    while i < n
        invariant
            n == v@.len(),
            i <= n,
            out.deep_view() =~= v.deep_view().take(i as int),
        decreases n - i,
    {
        proof {
            assert(v.deep_view()[i as int] == v@[i as int].deep_view());
        }
        let item = clone_tx_info(&v[i]);
        let ghost o0 = out.deep_view();
        let ghost iv = item.deep_view();
        out.push(item);
        proof {
            assert(out.deep_view() =~= o0.push(iv));
            assert(out.deep_view() =~= v.deep_view().take(i + 1));
        }
        i += 1;
    }
    proof {
        assert(v.deep_view().take(n as int) =~= v.deep_view());
    }
    out
}

/// Copies a list of strings.
fn clone_string_list(v: &Vec<String>) -> (r: Vec<String>)
    ensures
        r.deep_view() == v.deep_view(),
{
    let n = v.len();
    let mut out: Vec<String> = Vec::new();
    let mut i: usize = 0;
    while i < n
        invariant
            n == v@.len(),
            i <= n,
            out.deep_view() =~= v.deep_view().take(i as int),
        decreases n - i,
    {
        proof {
            assert(v.deep_view()[i as int] == v@[i as int]@);
        }
        let item = v[i].clone();
        let ghost o0 = out.deep_view();
        let ghost iv = item@;
        out.push(item);
        proof {
            assert(out.deep_view() =~= o0.push(iv));
            assert(out.deep_view() =~= v.deep_view().take(i + 1));
        }
        i += 1;
    }
    proof {
        assert(v.deep_view().take(n as int) =~= v.deep_view());
    }
    out
}

/// A tracked wallet, keyed by address.
#[derive(Debug)]
pub struct WatchedWallet {
    pub address: String,
    pub label: String,
    /// Lifetime traded lamports; never decreases.
    pub total_volume: u128,
    /// Sticky: set once, never cleared.
    pub is_whale: bool,
    /// The most recent transactions, oldest first, capped at 100.
    pub transactions: Vec<TxInfo>,
    pub last_activity: Option<String>,
}

/// Spec-level image of a [`WatchedWallet`].
#[verifier::ext_equal]
pub struct WatchedWalletV {
    pub address: Seq<char>,
    pub label: Seq<char>,
    pub total_volume: u128,
    pub is_whale: bool,
    pub transactions: Seq<TxInfoV>,
    pub last_activity: Option<Seq<char>>,
}

impl DeepView for WatchedWallet {
    type V = WatchedWalletV;

    open spec fn deep_view(&self) -> WatchedWalletV {
        WatchedWalletV {
            address: self.address@,
            label: self.label@,
            total_volume: self.total_volume,
            is_whale: self.is_whale,
            transactions: self.transactions.deep_view(),
            last_activity: self.last_activity.deep_view(),
        }
    }
}

impl Keyed for WatchedWalletV {
    open spec fn key(&self) -> Seq<char> {
        self.address
    }
}

/// Copies a tracked wallet, including its transactions.
pub fn clone_wallet_entry(w: &WatchedWallet) -> (r: WatchedWallet)
    ensures
        r.deep_view() == w.deep_view(),
{
    WatchedWallet {
        address: w.address.clone(),
        label: w.label.clone(),
        total_volume: w.total_volume,
        is_whale: w.is_whale,
        transactions: clone_tx_list(&w.transactions),
        last_activity: match &w.last_activity {
            Some(s) => Some(s.clone()),
            None => None,
        },
    }
}

/// The buy/sell window of one token, keyed by mint.
#[derive(Debug)]
pub struct TokenMovement {
    pub mint: String,
    /// Buys inside the accumulation window, oldest first.
    pub buys: Vec<TxInfo>,
    /// Sells inside the accumulation window, oldest first.
    pub sells: Vec<TxInfo>,
    /// Signed lamports: buys add, sells subtract. Saturating.
    pub net_flow: i128,
    pub unique_buyers: Vec<String>,
    pub unique_sellers: Vec<String>,
}

/// Spec-level image of a [`TokenMovement`].
#[verifier::ext_equal]
pub struct TokenMovementV {
    pub mint: Seq<char>,
    pub buys: Seq<TxInfoV>,
    pub sells: Seq<TxInfoV>,
    pub net_flow: i128,
    pub unique_buyers: Seq<Seq<char>>,
    pub unique_sellers: Seq<Seq<char>>,
}

impl DeepView for TokenMovement {
    type V = TokenMovementV;

    open spec fn deep_view(&self) -> TokenMovementV {
        TokenMovementV {
            mint: self.mint@,
            buys: self.buys.deep_view(),
            sells: self.sells.deep_view(),
            net_flow: self.net_flow,
            unique_buyers: self.unique_buyers.deep_view(),
            unique_sellers: self.unique_sellers.deep_view(),
        }
    }
}

impl Keyed for TokenMovementV {
    open spec fn key(&self) -> Seq<char> {
        self.mint
    }
}

/// Copies a token movement, including its windows.
pub fn clone_movement(m: &TokenMovement) -> (r: TokenMovement)
    ensures
        r.deep_view() == m.deep_view(),
{
    TokenMovement {
        mint: m.mint.clone(),
        buys: clone_tx_list(&m.buys),
        sells: clone_tx_list(&m.sells),
        net_flow: m.net_flow,
        unique_buyers: clone_string_list(&m.unique_buyers),
        unique_sellers: clone_string_list(&m.unique_sellers),
    }
}

/// Whale thresholds. Amounts are lamports, windows milliseconds.
#[derive(Debug, Clone, Copy, PartialEq, Eq, Structural)]
pub struct WhaleThresholds {
    pub whale_threshold_lamports: u64,
    pub alert_on_accumulation: bool,
    pub alert_on_dump: bool,
    pub accumulation_window_ms: i64,
    pub min_transactions_for_pattern: usize,
}

/// Tracker statistics.
#[derive(Debug, Clone, Copy, PartialEq, Eq, Structural)]
pub struct WhaleWatcherStats {
    pub wallets_tracked: u64,
    pub whales_identified: u64,
    pub accumulation_alerts: u64,
    pub dump_alerts: u64,
    /// Lamports over all whale transactions seen.
    pub total_volume_tracked: u128,
    pub watched_wallets: usize,
    pub tokens_tracked: usize,
    pub is_running: bool,
}

/// A token ranked by the size of its net flow.
#[derive(Debug)]
pub struct TopMover {
    pub mint: String,
    pub net_flow: i128,
    /// Lamports over the window, buys and sells together.
    pub volume: u128,
}

/// Spec-level image of a [`TopMover`].
#[verifier::ext_equal]
pub struct TopMoverV {
    pub mint: Seq<char>,
    pub net_flow: i128,
    pub volume: u128,
}

impl DeepView for TopMover {
    type V = TopMoverV;

    open spec fn deep_view(&self) -> TopMoverV {
        TopMoverV { mint: self.mint@, net_flow: self.net_flow, volume: self.volume }
    }
}

/// What a buy or sell transaction parses to: the first signer, the first
/// mint recorded after (buy) or before (sell) the transaction, and the first
/// account's lamport change.
pub open spec fn spec_txinfo_of(tx: DecodedTx, is_buy: bool, now_ms: i64) -> Option<TxInfoV> {
    let mints = if is_buy {
        tx.post_token_mints.deep_view()
    } else {
        tx.pre_token_mints.deep_view()
    };
    if tx.account_keys.deep_view().len() > 0 && mints.len() > 0 {
        Some(
            TxInfoV {
                signature: if tx.signatures.deep_view().len() > 0 {
                    tx.signatures.deep_view()[0]
                } else {
                    Seq::<char>::empty()
                },
                wallet: tx.account_keys.deep_view()[0],
                mint: mints[0],
                tx_type: if is_buy {
                    "buy"@
                } else {
                    "sell"@
                },
                amount_lamports: spec_first_delta(tx.pre_balances@, tx.post_balances@),
                amount_tokens: 0,
                timestamp: now_ms,
            },
        )
    } else {
        None
    }
}

/// Parses a buy or sell out of a decoded transaction.
pub fn parse_transaction(tx: &DecodedTx, is_buy: bool, now_ms: i64) -> (r: Option<TxInfo>)
    ensures
        r.deep_view() == spec_txinfo_of(*tx, is_buy, now_ms),
{
    let mints = if is_buy {
        &tx.post_token_mints
    } else {
        &tx.pre_token_mints
    };
    if tx.account_keys.len() == 0 || mints.len() == 0 {
        return None;
    }
    proof {
        assert(mints.deep_view()[0] == mints@[0]@);
        assert(tx.account_keys.deep_view()[0] == tx.account_keys@[0]@);
    }
    let amount_lamports = first_balance_delta(&tx.pre_balances, &tx.post_balances);
    let signature = first_signature(tx);
    Some(
        TxInfo {
            signature,
            wallet: tx.account_keys[0].clone(),
            mint: mints[0].clone(),
            tx_type: if is_buy {
                String::from_str("buy")
            } else {
                String::from_str("sell")
            },
            amount_lamports,
            amount_tokens: 0,
            timestamp: now_ms,
        },
    )
}

/// First position of `address` among the tracked wallets.
fn wallet_entry_pos(wallets: &Vec<WatchedWallet>, address: &str) -> (r: Option<usize>)
    ensures
        r matches Some(i) ==> i < wallets@.len() && idx_of(wallets.deep_view(), address@) == i,
        r is None ==> idx_of(wallets.deep_view(), address@) == -1,
{
    let n = wallets.len();
    let mut i: usize = 0;
    while i < n
        invariant
            n == wallets@.len(),
            i <= n,
            forall|k: int| 0 <= k < i ==> (#[trigger] wallets.deep_view()[k]).address != address@,
        decreases n - i,
    {
        proof {
            assert(wallets.deep_view()[i as int] == wallets@[i as int].deep_view());
        }
        if str_eq(wallets[i].address.as_str(), address) {
            proof {
                let s = wallets.deep_view();
                lemma_idx_of(s, address@);
                assert(s[i as int].key() == address@);
                let x = idx_of(s, address@);
                if x < i as int {
                    assert(s[x].address != address@);
                    assert(s[x].key() == address@);
                }
                if x > i as int {
                    assert(s[i as int].key() != address@);
                }
            }
            return Some(i);
        }
        i += 1;
    }
    proof {
        let s = wallets.deep_view();
        lemma_idx_of(s, address@);
        let x = idx_of(s, address@);
        if x >= 0 {
            assert(s[x].key() == address@);
            assert(s[x].address != address@);
        }
    }
    None
}

/// First position of `mint` among the token movements.
fn movement_pos(movements: &Vec<TokenMovement>, mint: &str) -> (r: Option<usize>)
    ensures
        r matches Some(i) ==> i < movements@.len() && idx_of(movements.deep_view(), mint@) == i,
        r is None ==> idx_of(movements.deep_view(), mint@) == -1,
{
    let n = movements.len();
    let mut i: usize = 0;
    while i < n
        invariant
            n == movements@.len(),
            i <= n,
            forall|k: int| 0 <= k < i ==> (#[trigger] movements.deep_view()[k]).mint != mint@,
        decreases n - i,
    {
        proof {
            assert(movements.deep_view()[i as int] == movements@[i as int].deep_view());
        }
        if str_eq(movements[i].mint.as_str(), mint) {
            proof {
                let s = movements.deep_view();
                lemma_idx_of(s, mint@);
                assert(s[i as int].key() == mint@);
                let x = idx_of(s, mint@);
                if x < i as int {
                    assert(s[x].mint != mint@);
                    assert(s[x].key() == mint@);
                }
                if x > i as int {
                    assert(s[i as int].key() != mint@);
                }
            }
            return Some(i);
        }
        i += 1;
    }
    proof {
        let s = movements.deep_view();
        lemma_idx_of(s, mint@);
        let x = idx_of(s, mint@);
        if x >= 0 {
            assert(s[x].key() == mint@);
            assert(s[x].mint != mint@);
        }
    }
    None
}

/// The whale tracker.
pub struct WhaleWatcher {
    watched_wallets: Vec<WatchedWallet>,
    token_movements: Vec<TokenMovement>,
    thresholds: WhaleThresholds,
    wallets_tracked: u64,
    whales_identified: u64,
    accumulation_alerts: u64,
    dump_alerts: u64,
    total_volume_tracked: u128,
    is_running: bool,
}

impl WhaleWatcher {
    pub closed spec fn wallets_view(&self) -> Seq<WatchedWalletV> {
        self.watched_wallets.deep_view()
    }

    pub closed spec fn movements_view(&self) -> Seq<TokenMovementV> {
        self.token_movements.deep_view()
    }

    pub closed spec fn thresholds_spec(&self) -> WhaleThresholds {
        self.thresholds
    }

    pub closed spec fn wallets_tracked_spec(&self) -> u64 {
        self.wallets_tracked
    }

    pub closed spec fn whales_identified_spec(&self) -> u64 {
        self.whales_identified
    }

    pub closed spec fn accumulation_alerts_spec(&self) -> u64 {
        self.accumulation_alerts
    }

    pub closed spec fn dump_alerts_spec(&self) -> u64 {
        self.dump_alerts
    }

    pub closed spec fn total_volume_tracked_spec(&self) -> u128 {
        self.total_volume_tracked
    }

    pub closed spec fn running_spec(&self) -> bool {
        self.is_running
    }

    /// Wallet and movement keys unique; wallet histories within their cap.
    pub closed spec fn wf(&self) -> bool {
        &&& unique_keys(self.wallets_view())
        &&& unique_keys(self.movements_view())
        &&& forall|k: int|
            0 <= k < self.wallets_view().len() ==> (#[trigger] self.wallets_view()[k]).transactions.len()
                <= 100
    }

    /// A fresh tracker for this configuration: a one-hour accumulation
    /// window, three transactions for a pattern.
    pub fn new(config: &Config) -> (r: WhaleWatcher)
        ensures
            r.wf(),
            r.wallets_view() == Seq::<WatchedWalletV>::empty(),
            r.movements_view() == Seq::<TokenMovementV>::empty(),
            r.thresholds_spec() == (WhaleThresholds {
                whale_threshold_lamports: config.whale_threshold_lamports,
                alert_on_accumulation: config.alert_on_accumulation,
                alert_on_dump: config.alert_on_dump,
                accumulation_window_ms: 3600000,
                min_transactions_for_pattern: 3,
            }),
            r.wallets_tracked_spec() == 0,
            r.whales_identified_spec() == 0,
            r.accumulation_alerts_spec() == 0,
            r.dump_alerts_spec() == 0,
            r.total_volume_tracked_spec() == 0,
            !r.running_spec(),
    {
        let r = WhaleWatcher {
            watched_wallets: Vec::new(),
            token_movements: Vec::new(),
            thresholds: WhaleThresholds {
                whale_threshold_lamports: config.whale_threshold_lamports,
                alert_on_accumulation: config.alert_on_accumulation,
                alert_on_dump: config.alert_on_dump,
                accumulation_window_ms: 3600000,
                min_transactions_for_pattern: 3,
            },
            wallets_tracked: 0,
            whales_identified: 0,
            accumulation_alerts: 0,
            dump_alerts: 0,
            total_volume_tracked: 0,
            is_running: false,
        };
        proof {
            assert(r.watched_wallets.deep_view() =~= Seq::<WatchedWalletV>::empty());
            assert(r.token_movements.deep_view() =~= Seq::<TokenMovementV>::empty());
        }
        r
    }

    /// Tracks a wallet under a label; an address already tracked is left
    /// untouched. The wallet is persisted with zero volume.
    pub fn watch_wallet(
        &mut self,
        address: &str,
        label: &str,
        now_iso: String,
        db: &mut DatabaseService,
    )
        requires
            old(self).wf(),
            old(db).wf(),
        ensures
            final(self).wf(),
            final(db).wf(),
            has_key(old(self).wallets_view(), address@) ==> final(self).wallets_view() == old(self).wallets_view() && final(db).wallets_view() == old(db).wallets_view() && final(self).wallets_tracked_spec() == old(self).wallets_tracked_spec(),
            !has_key(old(self).wallets_view(), address@) ==> {
                &&& final(self).wallets_view() == old(self).wallets_view().push(
                    (WatchedWalletV {
                        address: address@,
                        label: label@,
                        total_volume: 0,
                        is_whale: false,
                        transactions: Seq::empty(),
                        last_activity: None,
                    }),
                )
                &&& final(db).wallets_view() == upsert(
                    old(db).wallets_view(),
                    (crate::database::WalletRecordV {
                        address: address@,
                        label: label@,
                        total_volume_lamports: 0,
                        last_activity: Some(now_iso@),
                        is_whale: false,
                    }),
                )
                &&& final(self).wallets_tracked_spec() == (if old(self).wallets_tracked_spec()
                    < u64::MAX {
                    old(self).wallets_tracked_spec() + 1
                } else {
                    old(self).wallets_tracked_spec() as int
                })
            },
            final(self).movements_view() == old(self).movements_view(),
            final(self).thresholds_spec() == old(self).thresholds_spec(),
            final(db).tokens_view() == old(db).tokens_view(),
            final(db).transactions_view() == old(db).transactions_view(),
    {
        if wallet_entry_pos(&self.watched_wallets, address).is_some() {
            return ;
        }
        let entry = WatchedWallet {
            address: address.to_owned(),
            label: label.to_owned(),
            total_volume: 0,
            is_whale: false,
            transactions: Vec::new(),
            last_activity: None,
        };
        let ghost ev = entry.deep_view();
        proof {
            assert(entry.transactions.deep_view() =~= Seq::<TxInfoV>::empty());
            crate::keyed::lemma_unique_push(self.watched_wallets.deep_view(), ev);
        }
        let ghost w0 = self.watched_wallets.deep_view();
        self.watched_wallets.push(entry);
        proof {
            assert(self.watched_wallets.deep_view() =~= w0.push(ev));
        }
        db.save_wallet(
            WalletRecord {
                address: address.to_owned(),
                label: label.to_owned(),
                total_volume_lamports: 0,
                last_activity: None,
                is_whale: false,
            },
            now_iso,
        );
        self.wallets_tracked = bump(self.wallets_tracked);
    }

    /// Stops tracking an address; an unknown address is a no-op.
    pub fn unwatch_wallet(&mut self, address: &str)
        requires
            old(self).wf(),
        ensures
            final(self).wf(),
            !has_key(old(self).wallets_view(), address@) ==> final(self).wallets_view() == old(self).wallets_view(),
            has_key(old(self).wallets_view(), address@) ==> final(self).wallets_view() == old(self).wallets_view().remove(idx_of(old(self).wallets_view(), address@)),
            final(self).movements_view() == old(self).movements_view(),
            final(self).thresholds_spec() == old(self).thresholds_spec(),
    {
        match wallet_entry_pos(&self.watched_wallets, address) {
            Some(i) => {
                let ghost w0 = self.watched_wallets.deep_view();
                self.watched_wallets.remove(i);
                proof {
                    assert(self.watched_wallets.deep_view() =~= w0.remove(i as int));
                    lemma_unique_remove(w0, i as int);
                }
            },
            None => {},
        }
    }

    /// Marks the tracker running.
    pub fn start(&mut self)
        requires
            old(self).wf(),
        ensures
            final(self).wf(),
            final(self).running_spec(),
            final(self).wallets_view() == old(self).wallets_view(),
            final(self).movements_view() == old(self).movements_view(),
            final(self).thresholds_spec() == old(self).thresholds_spec(),
    {
        self.is_running = true;
    }

    /// Marks the tracker stopped.
    pub fn stop(&mut self)
        requires
            old(self).wf(),
        ensures
            final(self).wf(),
            !final(self).running_spec(),
            final(self).wallets_view() == old(self).wallets_view(),
            final(self).movements_view() == old(self).movements_view(),
            final(self).thresholds_spec() == old(self).thresholds_spec(),
    {
        self.is_running = false;
    }

    pub fn is_running(&self) -> (r: bool)
        ensures
            r == self.running_spec(),
    {
        self.is_running
    }

    /// The tracker's counters and map sizes.
    pub fn get_stats(&self) -> (r: WhaleWatcherStats)
        ensures
            r.wallets_tracked == self.wallets_tracked_spec(),
            r.whales_identified == self.whales_identified_spec(),
            r.accumulation_alerts == self.accumulation_alerts_spec(),
            r.dump_alerts == self.dump_alerts_spec(),
            r.total_volume_tracked == self.total_volume_tracked_spec(),
            r.watched_wallets == self.wallets_view().len(),
            r.tokens_tracked == self.movements_view().len(),
            r.is_running == self.running_spec(),
    {
        WhaleWatcherStats {
            wallets_tracked: self.wallets_tracked,
            whales_identified: self.whales_identified,
            accumulation_alerts: self.accumulation_alerts,
            dump_alerts: self.dump_alerts,
            total_volume_tracked: self.total_volume_tracked,
            watched_wallets: self.watched_wallets.len(),
            tokens_tracked: self.token_movements.len(),
            is_running: self.is_running,
        }
    }

    /// The tracked wallet under `address`, if any.
    pub fn get_wallet_activity(&self, address: &str) -> (r: Option<&WatchedWallet>)
        ensures
            r is Some <==> has_key(self.wallets_view(), address@),
            r matches Some(w) ==> w.deep_view() == self.wallets_view()[idx_of(
                self.wallets_view(),
                address@,
            )],
    {
        match wallet_entry_pos(&self.watched_wallets, address) {
            Some(i) => Some(&self.watched_wallets[i]),
            None => None,
        }
    }
}


/// `a + b`, clipped into `i128`.
pub fn add_i128_sat(a: i128, b: u64) -> (r: i128)
    ensures
        r == if a + b <= i128::MAX {
            a + b
        } else {
            i128::MAX as int
        },
        r >= a,
{
    if a <= i128::MAX - (b as i128) {
        a + (b as i128)
    } else {
        i128::MAX
    }
}

/// `a - b`, clipped into `i128`.
pub fn sub_i128_sat(a: i128, b: u64) -> (r: i128)
    ensures
        r == if a - b >= i128::MIN {
            a - b
        } else {
            i128::MIN as int
        },
        r <= a,
{
    if a >= i128::MIN + (b as i128) {
        a - (b as i128)
    } else {
        i128::MIN
    }
}

/// The entry is younger than the accumulation window ending at `now_ms`.
pub open spec fn tx_in_window(t: TxInfoV, now_ms: i64, window_ms: i64) -> bool {
    t.timestamp > now_ms - window_ms
}

/// Drops every entry older than the accumulation window.
fn retain_recent(v: &mut Vec<TxInfo>, now_ms: i64, window_ms: i64)
    ensures
        final(v).deep_view() == old(v).deep_view().filter(
            |t: TxInfoV| tx_in_window(t, now_ms, window_ms),
        ),
{
    let n = v.len();
    let mut out: Vec<TxInfo> = Vec::new();
    let mut i: usize = 0;
    while i < n
        invariant
            n == v@.len(),
            i <= n,
            out.deep_view() == v.deep_view().take(i as int).filter(
                |t: TxInfoV| tx_in_window(t, now_ms, window_ms),
            ),
        decreases n - i,
    {
        let ghost pre = v.deep_view().take(i as int);
        proof {
            assert(v.deep_view()[i as int] == v@[i as int].deep_view());
        }
        let keep = (v[i].timestamp as i128) > (now_ms as i128) - (window_ms as i128);
        if keep {
            let item = clone_tx_info(&v[i]);
            let ghost o0 = out.deep_view();
            let ghost iv = item.deep_view();
            out.push(item);
            proof {
                assert(out.deep_view() =~= o0.push(iv));
            }
        }
        proof {
            reveal(Seq::filter);
            let next = v.deep_view().take(i + 1);
            assert(next.drop_last() =~= pre);
            assert(next.last() == v.deep_view()[i as int]);
            assert(out.deep_view() =~= next.filter(
                |t: TxInfoV| tx_in_window(t, now_ms, window_ms),
            ));
        }
        i += 1;
    }
    proof {
        assert(v.deep_view().take(n as int) =~= v.deep_view());
    }
    *v = out;
}

/// The wallet entry after one tracked transaction: volume grows by the
/// amount (saturating), the transaction joins the capped history, and the
/// entry turns whale on a single transaction at the threshold or a lifetime
/// volume of twice the threshold. Whale status is sticky.
pub open spec fn wallet_after(
    prev: Option<WatchedWalletV>,
    info: TxInfoV,
    th: WhaleThresholds,
    now_iso: Seq<char>,
) -> WatchedWalletV {
    let base = match prev {
        Some(w) => w,
        None => WatchedWalletV {
            address: info.wallet,
            label: Seq::empty(),
            total_volume: 0,
            is_whale: false,
            transactions: Seq::empty(),
            last_activity: None,
        },
    };
    let vol = if base.total_volume + info.amount_lamports <= u128::MAX {
        (base.total_volume + info.amount_lamports) as u128
    } else {
        u128::MAX
    };
    let grown = base.transactions.push(info);
    let txs = if grown.len() > 100 {
        grown.drop_first()
    } else {
        grown
    };
    let whale = base.is_whale || info.amount_lamports >= th.whale_threshold_lamports || vol >= 2
        * th.whale_threshold_lamports;
    WatchedWalletV {
        total_volume: vol,
        is_whale: whale,
        transactions: txs,
        last_activity: Some(now_iso),
        ..base
    }
}

/// The identity a whale alert reports for a mint: the stored token row when
/// one exists, else the unknown-token placeholder.
pub open spec fn whale_token_info(
    tokens: Seq<crate::database::TokenRecordV>,
    mint: Seq<char>,
) -> TokenAlertInfoV {
    if crate::keyed::has_key(tokens, mint) {
        let row = tokens[idx_of(tokens, mint)];
        TokenAlertInfoV {
            mint: row.mint,
            name: row.name,
            symbol: row.symbol,
            creator: row.creator,
            initial_liquidity: Some(row.initial_liquidity),
        }
    } else {
        TokenAlertInfoV {
            mint,
            name: "UNKNOWN"@,
            symbol: "UNK"@,
            creator: Seq::<char>::empty(),
            initial_liquidity: None,
        }
    }
}

/// The token movement after one tracked transaction: the transaction joins
/// its side of the window, the net flow moves by the amount (saturating),
/// the wallet joins the side's unique set, and both sides are purged of
/// entries older than the window.
pub open spec fn movement_after(
    prev: Option<TokenMovementV>,
    info: TxInfoV,
    is_buy: bool,
    now_ms: i64,
    window_ms: i64,
) -> TokenMovementV {
    let base = match prev {
        Some(m) => m,
        None => TokenMovementV {
            mint: info.mint,
            buys: Seq::empty(),
            sells: Seq::empty(),
            net_flow: 0,
            unique_buyers: Seq::empty(),
            unique_sellers: Seq::empty(),
        },
    };
    let buys1 = if is_buy {
        base.buys.push(info)
    } else {
        base.buys
    };
    let sells1 = if is_buy {
        base.sells
    } else {
        base.sells.push(info)
    };
    let nf = if is_buy {
        if base.net_flow + info.amount_lamports <= i128::MAX {
            base.net_flow + info.amount_lamports
        } else {
            i128::MAX as int
        }
    } else {
        if base.net_flow - info.amount_lamports >= i128::MIN {
            base.net_flow - info.amount_lamports
        } else {
            i128::MIN as int
        }
    };
    let buyers = if is_buy && !base.unique_buyers.contains(info.wallet) {
        base.unique_buyers.push(info.wallet)
    } else {
        base.unique_buyers
    };
    let sellers = if !is_buy && !base.unique_sellers.contains(info.wallet) {
        base.unique_sellers.push(info.wallet)
    } else {
        base.unique_sellers
    };
    TokenMovementV {
        mint: base.mint,
        buys: buys1.filter(|t: TxInfoV| tx_in_window(t, now_ms, window_ms)),
        sells: sells1.filter(|t: TxInfoV| tx_in_window(t, now_ms, window_ms)),
        net_flow: nf as i128,
        unique_buyers: buyers,
        unique_sellers: sellers,
    }
}

impl WhaleWatcher {
    /// Handles the transaction behind a buy- or sell-classified event.
    ///
    /// One wallet entry and one token movement are updated per transaction.
    /// A transaction at the whale threshold is persisted and may alert; the
    /// movement window is purged on every update.
    #[verifier::rlimit(60)]
    pub fn analyze_transaction(
        &mut self,
        tx: &DecodedTx,
        is_buy: bool,
        now_ms: i64,
        now_iso: String,
        db: &mut DatabaseService,
        bus: &mut AlertService,
    ) -> (r: Vec<Alert>)
        requires
            old(self).wf(),
            old(db).wf(),
            old(bus).wf(),
        ensures
            final(self).wf(),
            final(db).wf(),
            final(bus).wf(),
            final(self).thresholds_spec() == old(self).thresholds_spec(),
            final(self).running_spec() == old(self).running_spec(),
            final(self).wallets_tracked_spec() == old(self).wallets_tracked_spec(),
            final(db).tokens_view() == old(db).tokens_view(),
            final(db).alerts_view() == old(db).alerts_view(),
            final(bus).next_id_spec() == old(bus).next_id_spec() + r@.len(),
            final(bus).history_view() == history_after_all(old(bus).history_view(), r.deep_view()),
            spec_txinfo_of(*tx, is_buy, now_ms) is None ==> {
                &&& final(self).wallets_view() == old(self).wallets_view()
                &&& final(self).movements_view() == old(self).movements_view()
                &&& final(db).wallets_view() == old(db).wallets_view()
                &&& final(db).transactions_view() == old(db).transactions_view()
                &&& final(self).whales_identified_spec() == old(self).whales_identified_spec()
                &&& r@.len() == 0
            },
            spec_txinfo_of(*tx, is_buy, now_ms) matches Some(info) ==> {
                let prev_w = if has_key(old(self).wallets_view(), info.wallet) {
                    Some(old(self).wallets_view()[idx_of(old(self).wallets_view(), info.wallet)])
                } else {
                    None
                };
                let w2 = wallet_after(prev_w, info, old(self).thresholds_spec(), now_iso@);
                let prev_m = if has_key(old(self).movements_view(), info.mint) {
                    Some(old(self).movements_view()[idx_of(old(self).movements_view(), info.mint)])
                } else {
                    None
                };
                let m2 = movement_after(
                    prev_m,
                    info,
                    is_buy,
                    now_ms,
                    old(self).thresholds_spec().accumulation_window_ms,
                );
                let whale_tx = info.amount_lamports
                    >= old(self).thresholds_spec().whale_threshold_lamports;
                &&& final(self).wallets_view() == upsert(old(self).wallets_view(), w2)
                &&& has_key(final(self).wallets_view(), info.wallet)
                &&& has_key(final(self).movements_view(), info.mint)
                &&& (prev_w matches Some(pw) ==> w2.total_volume >= pw.total_volume && (pw.is_whale
                    ==> w2.is_whale))
                &&& final(self).movements_view() == upsert(old(self).movements_view(), m2)
                &&& (forall|e: int|
                    0 <= e < m2.buys.len() ==> tx_in_window(
                        #[trigger] m2.buys[e],
                        now_ms,
                        old(self).thresholds_spec().accumulation_window_ms,
                    ))
                &&& (forall|e: int|
                    0 <= e < m2.sells.len() ==> tx_in_window(
                        #[trigger] m2.sells[e],
                        now_ms,
                        old(self).thresholds_spec().accumulation_window_ms,
                    ))
                &&& (whale_tx ==> final(db).wallets_view() == upsert(
                    old(db).wallets_view(),
                    (crate::database::WalletRecordV {
                        address: info.wallet,
                        label: w2.label,
                        total_volume_lamports: w2.total_volume,
                        last_activity: Some(now_iso@),
                        is_whale: true,
                    }),
                ) && final(db).transactions_view() == insert_new(
                    old(db).transactions_view(),
                    (crate::database::TransactionRecordV {
                        signature: info.signature,
                        mint: info.mint,
                        wallet: info.wallet,
                        tx_type: info.tx_type,
                        amount_lamports: info.amount_lamports,
                        amount_tokens: info.amount_tokens,
                        timestamp: now_iso@,
                        timestamp_ms: now_ms,
                    }),
                ))
                &&& (!whale_tx ==> final(db).wallets_view() == old(db).wallets_view() && final(db).transactions_view() == old(db).transactions_view() && final(self).total_volume_tracked_spec() == old(self).total_volume_tracked_spec() && r@.len()
                    == 0 && final(self).accumulation_alerts_spec() == old(self).accumulation_alerts_spec() && final(self).dump_alerts_spec() == old(self).dump_alerts_spec())
                &&& (whale_tx ==> final(self).total_volume_tracked_spec() == (if old(self).total_volume_tracked_spec() + info.amount_lamports <= u128::MAX {
                    old(self).total_volume_tracked_spec() + info.amount_lamports
                } else {
                    u128::MAX as int
                }))
                &&& (whale_tx && is_buy && old(self).thresholds_spec().alert_on_accumulation
                    ==> final(self).accumulation_alerts_spec() == (if old(self).accumulation_alerts_spec() < u64::MAX {
                    old(self).accumulation_alerts_spec() + 1
                } else {
                    old(self).accumulation_alerts_spec() as int
                }))
                &&& (whale_tx && !is_buy && old(self).thresholds_spec().alert_on_dump ==> final(self).dump_alerts_spec() == (if old(self).dump_alerts_spec() < u64::MAX {
                    old(self).dump_alerts_spec() + 1
                } else {
                    old(self).dump_alerts_spec() as int
                }))
                &&& (whale_tx && !(if is_buy {
                    old(self).thresholds_spec().alert_on_accumulation
                } else {
                    old(self).thresholds_spec().alert_on_dump
                }) ==> r@.len() == 0)
                &&& (whale_tx && (if is_buy {
                    old(self).thresholds_spec().alert_on_accumulation
                } else {
                    old(self).thresholds_spec().alert_on_dump
                }) && old(bus).next_id_spec() < 0x7fff_ffff_ffff_ffff ==> {
                    &&& r@.len() == 1
                    &&& r.deep_view()[0].id == old(bus).next_id_spec()
                    &&& r.deep_view()[0].alert_type == "whale_"@ + info.tx_type
                    &&& r.deep_view()[0].message == whale_message(
                        info.wallet,
                        whale_token_info(old(db).tokens_view(), info.mint),
                        info.amount_lamports,
                        info.amount_tokens,
                    )
                })
                &&& final(self).whales_identified_spec() == (if (prev_w matches Some(pw)
                    ==> !pw.is_whale) && w2.is_whale {
                    if old(self).whales_identified_spec() < u64::MAX {
                        old(self).whales_identified_spec() + 1
                    } else {
                        old(self).whales_identified_spec() as int
                    }
                } else {
                    old(self).whales_identified_spec() as int
                })
            },
    {
        let mut out: Vec<Alert> = Vec::new();
        let info = match parse_transaction(tx, is_buy, now_ms) {
            Some(i) => i,
            None => {
                proof {
                    assert(out.deep_view() =~= Seq::<AlertV>::empty());
                }
                return out;
            },
        };
        let ghost infov = info.deep_view();
        let ghost bus_h0 = old(bus).history_view();
        let ghost bus_n0 = old(bus).next_id_spec() as int;
        proof {
            assert(out.deep_view() =~= Seq::<AlertV>::empty());
        }
        let th = self.thresholds;
        // One upsert per wallet: volume, history, whale status.
        let pos = wallet_entry_pos(&self.watched_wallets, info.wallet.as_str());
        let mut w = match pos {
            Some(i) => {
                proof {
                    assert(self.watched_wallets.deep_view()[i as int] == self.watched_wallets@[
                        i as int].deep_view());
                }
                clone_wallet_entry(&self.watched_wallets[i])
            },
            None => WatchedWallet {
                address: info.wallet.clone(),
                label: String::new(),
                total_volume: 0,
                is_whale: false,
                transactions: Vec::new(),
                last_activity: None,
            },
        };
        let ghost base = w.deep_view();
        proof {
            if pos is None {
                assert(w.transactions.deep_view() =~= Seq::<TxInfoV>::empty());
            }
        }
        let was_whale = w.is_whale;
        w.total_volume = add_saturating(w.total_volume, info.amount_lamports as u128);
        w.last_activity = Some(now_iso.clone());
        let ghost txs0 = w.transactions.deep_view();
        let entry_copy = clone_tx_info(&info);
        let ghost ecv = entry_copy.deep_view();
        w.transactions.push(entry_copy);
        proof {
            assert(w.transactions.deep_view() =~= txs0.push(ecv));
        }
        if w.transactions.len() > 100 {
            let ghost t1 = w.transactions.deep_view();
            w.transactions.remove(0);
            proof {
                assert(w.transactions.deep_view() =~= t1.remove(0));
                assert(t1.remove(0) =~= t1.drop_first());
            }
        }
        let whale_tx = info.amount_lamports >= th.whale_threshold_lamports;
        if !w.is_whale && (whale_tx || w.total_volume >= 2 * (th.whale_threshold_lamports
            as u128)) {
            w.is_whale = true;
        }
        if !was_whale && w.is_whale {
            self.whales_identified = bump(self.whales_identified);
        }
        let vol = w.total_volume;
        let label_copy = w.label.clone();
        let ghost w2 = w.deep_view();
        proof {
            assert(w2 =~~= wallet_after(
                if pos is Some {
                    Some(base)
                } else {
                    None
                },
                infov,
                th,
                now_iso@,
            ));
        }
        let ghost ws0 = self.watched_wallets.deep_view();
        proof {
            lemma_idx_of(ws0, infov.wallet);
            match pos {
                Some(i) => {
                    assert(ws0[i as int].key() == infov.wallet);
                    assert(base.address == infov.wallet);
                },
                None => {},
            }
            assert(w2.key() == infov.wallet);
            lemma_upsert_unique(ws0, w2);
            lemma_idx_of(ws0, w2.key());
        }
        match pos {
            Some(i) => {
                self.watched_wallets.set(i, w);
                proof {
                    assert(self.watched_wallets.deep_view() =~= ws0.update(i as int, w2));
                }
            },
            None => {
                self.watched_wallets.push(w);
                proof {
                    assert(self.watched_wallets.deep_view() =~= ws0.push(w2));
                }
            },
        }
        // The whale path: persist and alert.
        if whale_tx {
            db.save_wallet(
                WalletRecord {
                    address: info.wallet.clone(),
                    label: label_copy,
                    total_volume_lamports: vol,
                    last_activity: None,
                    is_whale: true,
                },
                now_iso.clone(),
            );
            db.save_transaction(
                TransactionRecord {
                    signature: info.signature.clone(),
                    mint: info.mint.clone(),
                    wallet: info.wallet.clone(),
                    tx_type: info.tx_type.clone(),
                    amount_lamports: info.amount_lamports,
                    amount_tokens: info.amount_tokens,
                    timestamp: now_iso.clone(),
                    timestamp_ms: now_ms,
                },
            );
            let token_info = match db.get_token(info.mint.as_str()) {
                Some(t) => TokenAlertInfo {
                    mint: t.mint.clone(),
                    name: t.name.clone(),
                    symbol: t.symbol.clone(),
                    creator: t.creator.clone(),
                    initial_liquidity: Some(t.initial_liquidity),
                },
                None => TokenAlertInfo {
                    mint: info.mint.clone(),
                    name: String::from_str("UNKNOWN"),
                    symbol: String::from_str("UNK"),
                    creator: String::new(),
                    initial_liquidity: None,
                },
            };
            proof {
                assert(token_info.deep_view() =~= whale_token_info(
                    old(db).tokens_view(),
                    infov.mint,
                ));
            }
            if is_buy {
                if th.alert_on_accumulation {
                    self.accumulation_alerts = bump(self.accumulation_alerts);
                    match bus.alert_whale(
                        "buy",
                        info.wallet.as_str(),
                        &token_info,
                        info.amount_lamports,
                        info.amount_tokens,
                    ) {
                        Some(a) => {
                            let ghost av = a.deep_view();
                            out.push(a);
                            proof {
                                assert(out.deep_view() =~= Seq::<AlertV>::empty().push(av));
                                crate::alerts::lemma_history_after_all_push(
                                    bus_h0,
                                    Seq::<AlertV>::empty(),
                                    av,
                                );
                                assert(history_after_all(bus_h0, Seq::<AlertV>::empty())
                                    == bus_h0);
                                assert(av.alert_type =~= "whale_"@ + infov.tx_type);
                            }
                        },
                        None => {},
                    }
                }
            } else {
                if th.alert_on_dump {
                    self.dump_alerts = bump(self.dump_alerts);
                    match bus.alert_whale(
                        "sell",
                        info.wallet.as_str(),
                        &token_info,
                        info.amount_lamports,
                        info.amount_tokens,
                    ) {
                        Some(a) => {
                            let ghost av = a.deep_view();
                            out.push(a);
                            proof {
                                assert(out.deep_view() =~= Seq::<AlertV>::empty().push(av));
                                crate::alerts::lemma_history_after_all_push(
                                    bus_h0,
                                    Seq::<AlertV>::empty(),
                                    av,
                                );
                                assert(history_after_all(bus_h0, Seq::<AlertV>::empty())
                                    == bus_h0);
                                assert(av.alert_type =~= "whale_"@ + infov.tx_type);
                            }
                        },
                        None => {},
                    }
                }
            }
            self.total_volume_tracked = add_saturating(
                self.total_volume_tracked,
                info.amount_lamports as u128,
            );
        }
        // The flow path: one upsert per token movement.
        let mpos = movement_pos(&self.token_movements, info.mint.as_str());
        let mut mv = match mpos {
            Some(i) => {
                proof {
                    assert(self.token_movements.deep_view()[i as int] == self.token_movements@[
                        i as int].deep_view());
                }
                clone_movement(&self.token_movements[i])
            },
            None => TokenMovement {
                mint: info.mint.clone(),
                buys: Vec::new(),
                sells: Vec::new(),
                net_flow: 0,
                unique_buyers: Vec::new(),
                unique_sellers: Vec::new(),
            },
        };
        let ghost mbase = mv.deep_view();
        proof {
            if mpos is None {
                assert(mv.buys.deep_view() =~= Seq::<TxInfoV>::empty());
                assert(mv.sells.deep_view() =~= Seq::<TxInfoV>::empty());
                assert(mv.unique_buyers.deep_view() =~= Seq::<Seq<char>>::empty());
                assert(mv.unique_sellers.deep_view() =~= Seq::<Seq<char>>::empty());
            }
        }
        if is_buy {
            let ghost b0 = mv.buys.deep_view();
            let item = clone_tx_info(&info);
            let ghost iv = item.deep_view();
            mv.buys.push(item);
            proof {
                assert(mv.buys.deep_view() =~= b0.push(iv));
            }
            mv.net_flow = add_i128_sat(mv.net_flow, info.amount_lamports);
            if !string_list_contains(&mv.unique_buyers, info.wallet.as_str()) {
                let ghost ub0 = mv.unique_buyers.deep_view();
                mv.unique_buyers.push(info.wallet.clone());
                proof {
                    assert(mv.unique_buyers.deep_view() =~= ub0.push(infov.wallet));
                }
            }
        } else {
            let ghost s0 = mv.sells.deep_view();
            let item = clone_tx_info(&info);
            let ghost iv = item.deep_view();
            mv.sells.push(item);
            proof {
                assert(mv.sells.deep_view() =~= s0.push(iv));
            }
            mv.net_flow = sub_i128_sat(mv.net_flow, info.amount_lamports);
            if !string_list_contains(&mv.unique_sellers, info.wallet.as_str()) {
                let ghost us0 = mv.unique_sellers.deep_view();
                mv.unique_sellers.push(info.wallet.clone());
                proof {
                    assert(mv.unique_sellers.deep_view() =~= us0.push(infov.wallet));
                }
            }
        }
        retain_recent(&mut mv.buys, now_ms, th.accumulation_window_ms);
        retain_recent(&mut mv.sells, now_ms, th.accumulation_window_ms);
        let ghost m2 = mv.deep_view();
        proof {
            assert(m2 =~~= movement_after(
                if mpos is Some {
                    Some(mbase)
                } else {
                    None
                },
                infov,
                is_buy,
                now_ms,
                th.accumulation_window_ms,
            ));
        }
        proof {
            assert forall|e: int| 0 <= e < m2.buys.len() implies tx_in_window(
                #[trigger] m2.buys[e],
                now_ms,
                th.accumulation_window_ms,
            ) by {
                (if is_buy {
                    mbase.buys.push(infov)
                } else {
                    mbase.buys
                }).lemma_filter_pred(
                    |t: TxInfoV| tx_in_window(t, now_ms, th.accumulation_window_ms),
                    e,
                );
            }
            assert forall|e: int| 0 <= e < m2.sells.len() implies tx_in_window(
                #[trigger] m2.sells[e],
                now_ms,
                th.accumulation_window_ms,
            ) by {
                (if is_buy {
                    mbase.sells
                } else {
                    mbase.sells.push(infov)
                }).lemma_filter_pred(
                    |t: TxInfoV| tx_in_window(t, now_ms, th.accumulation_window_ms),
                    e,
                );
            }
        }
        let ghost ms0 = self.token_movements.deep_view();
        proof {
            lemma_idx_of(ms0, infov.mint);
            match mpos {
                Some(i) => {
                    assert(ms0[i as int].key() == infov.mint);
                    assert(mbase.mint == infov.mint);
                },
                None => {},
            }
            assert(m2.key() == infov.mint);
            lemma_upsert_unique(ms0, m2);
            lemma_idx_of(ms0, m2.key());
        }
        match mpos {
            Some(i) => {
                self.token_movements.set(i, mv);
                proof {
                    assert(self.token_movements.deep_view() =~= ms0.update(i as int, m2));
                }
            },
            None => {
                self.token_movements.push(mv);
                proof {
                    assert(self.token_movements.deep_view() =~= ms0.push(m2));
                }
            },
        }
        proof {
            assert(Some(infov) == spec_txinfo_of(*tx, is_buy, now_ms));
            assert(self.watched_wallets.deep_view() == upsert(old(self).wallets_view(), w2));
            assert(self.token_movements.deep_view() == upsert(old(self).movements_view(), m2));
            crate::keyed::lemma_upsert_get(ws0, w2);
            crate::keyed::lemma_upsert_get(ms0, m2);
            assert(unique_keys(self.watched_wallets.deep_view()));
            assert(unique_keys(self.token_movements.deep_view()));
            assert forall|k: int|
                0 <= k < self.watched_wallets.deep_view().len() implies (#[trigger] self
                .watched_wallets
                .deep_view()[k]).transactions.len() <= 100 by {
                if has_key(ws0, w2.key()) {
                    if k != idx_of(ws0, w2.key()) {
                        assert(self.watched_wallets.deep_view()[k] == ws0[k]);
                        assert(old(self).wallets_view()[k].transactions.len() <= 100);
                    }
                } else {
                    if k < ws0.len() {
                        assert(self.watched_wallets.deep_view()[k] == ws0[k]);
                        assert(old(self).wallets_view()[k].transactions.len() <= 100);
                    }
                }
            }
        }
        out
    }
}


/// Every tracked wallet's transaction history stays within its 100-entry
/// cap.
pub proof fn lemma_wallet_history_bounded(w: WhaleWatcher)
    requires
        w.wf(),
    ensures
        forall|k: int|
            0 <= k < w.wallets_view().len() ==> (#[trigger] w.wallets_view()[k]).transactions.len()
                <= 100,
{
}

/// The lamports moved by a list of tracked transactions.
pub open spec fn tx_sum(s: Seq<TxInfoV>) -> int
    decreases s.len(),
{
    if s.len() == 0 {
        0
    } else {
        tx_sum(s.drop_last()) + s.last().amount_lamports
    }
}

/// Sums the lamports moved by a list of tracked transactions.
fn sum_tx_list(v: &Vec<TxInfo>) -> (r: u128)
    requires
        v@.len() * 0xffff_ffff_ffff_ffff <= u128::MAX,
    ensures
        r == tx_sum(v.deep_view()),
{
    let n = v.len();
    let mut total: u128 = 0;
    let mut i: usize = 0;
    while i < n
        invariant
            n == v@.len(),
            i <= n,
            n * 0xffff_ffff_ffff_ffff <= u128::MAX,
            total == tx_sum(v.deep_view().take(i as int)),
            total <= (i as int) * 0xffff_ffff_ffff_ffff,
        decreases n - i,
    {
        let ghost pre = v.deep_view().take(i as int);
        proof {
            assert(v.deep_view()[i as int] == v@[i as int].deep_view());
            let next = v.deep_view().take(i + 1);
            assert(next.drop_last() =~= pre);
            assert(next.last() == v.deep_view()[i as int]);
            assert((i as int + 1) * 0xffff_ffff_ffff_ffff <= n * 0xffff_ffff_ffff_ffff)
                by (nonlinear_arith)
                requires
                    i as int + 1 <= n as int,
            ;
        }
        total = total + (v[i].amount_lamports as u128);
        i += 1;
    }
    proof {
        assert(v.deep_view().take(n as int) =~= v.deep_view());
    }
    total
}

/// How many transactions of the side are whale-sized.
pub open spec fn whale_side_count(s: Seq<TxInfoV>, threshold: u64) -> int
    decreases s.len(),
{
    if s.len() == 0 {
        0
    } else {
        whale_side_count(s.drop_last(), threshold) + if s.last().amount_lamports >= threshold {
            1int
        } else {
            0int
        }
    }
}

/// The lamports those whale-sized transactions moved.
pub open spec fn whale_side_total(s: Seq<TxInfoV>, threshold: u64) -> int
    decreases s.len(),
{
    if s.len() == 0 {
        0
    } else {
        whale_side_total(s.drop_last(), threshold) + if s.last().amount_lamports >= threshold {
            s.last().amount_lamports as int
        } else {
            0int
        }
    }
}

/// The hits one movement yields: an accumulation hit when its window holds
/// at least `min_transactions_for_pattern` whale-sized buys, then a dump hit
/// likewise for its sells.
pub open spec fn movement_hits(m: TokenMovementV, th: WhaleThresholds) -> Seq<PatternHitV> {
    let buy_hits: Seq<PatternHitV> = if whale_side_count(m.buys, th.whale_threshold_lamports)
        >= th.min_transactions_for_pattern {
        seq![
            PatternHitV {
                mint: m.mint,
                is_buy: true,
                count: whale_side_count(m.buys, th.whale_threshold_lamports) as usize,
                total_lamports: whale_side_total(m.buys, th.whale_threshold_lamports) as u128,
            },
        ]
    } else {
        Seq::empty()
    };
    let sell_hits: Seq<PatternHitV> = if whale_side_count(m.sells, th.whale_threshold_lamports)
        >= th.min_transactions_for_pattern {
        seq![
            PatternHitV {
                mint: m.mint,
                is_buy: false,
                count: whale_side_count(m.sells, th.whale_threshold_lamports) as usize,
                total_lamports: whale_side_total(m.sells, th.whale_threshold_lamports) as u128,
            },
        ]
    } else {
        Seq::empty()
    };
    buy_hits + sell_hits
}

/// Every hit the pass reports, movement by movement in order.
pub open spec fn pattern_hits_spec(movs: Seq<TokenMovementV>, th: WhaleThresholds) -> Seq<
    PatternHitV,
>
    decreases movs.len(),
{
    if movs.len() == 0 {
        Seq::empty()
    } else {
        pattern_hits_spec(movs.drop_last(), th) + movement_hits(movs.last(), th)
    }
}

/// A pattern the periodic pass reports: enough whale-sized transactions on
/// one side of a token's window.
pub struct PatternHit {
    pub mint: String,
    /// Accumulation when true, dump when false.
    pub is_buy: bool,
    pub count: usize,
    pub total_lamports: u128,
}

impl WhaleWatcher {
    /// The periodic pattern pass: reports accumulation and dump patterns
    /// (at least `min_transactions_for_pattern` whale-sized transactions on
    /// one side of a window) and drops movements whose windows are empty.
    pub fn analyze_patterns(&mut self) -> (r: Vec<PatternHit>)
        requires
            old(self).wf(),
        ensures
            final(self).wf(),
            final(self).movements_view() == old(self).movements_view().filter(
                |m: TokenMovementV| m.buys.len() > 0 || m.sells.len() > 0,
            ),
            final(self).wallets_view() == old(self).wallets_view(),
            final(self).thresholds_spec() == old(self).thresholds_spec(),
            r.deep_view() == pattern_hits_spec(
                old(self).movements_view(),
                old(self).thresholds_spec(),
            ),
            forall|j: int|
                0 <= j < r@.len() ==> (#[trigger] r.deep_view()[j]).count >= old(
                    self,
                ).thresholds_spec().min_transactions_for_pattern,
    {
        let th = self.thresholds;
        let n = self.token_movements.len();
        let mut hits: Vec<PatternHit> = Vec::new();
        let mut kept: Vec<TokenMovement> = Vec::new();
        let mut i: usize = 0;
        while i < n
            invariant
                n == self.token_movements@.len(),
                i <= n,
                th == self.thresholds,
                kept.deep_view() == self.token_movements.deep_view().take(i as int).filter(
                    |m: TokenMovementV| m.buys.len() > 0 || m.sells.len() > 0,
                ),
                hits.deep_view() == pattern_hits_spec(
                    self.token_movements.deep_view().take(i as int),
                    th,
                ),
                forall|j: int|
                    0 <= j < hits@.len() ==> (#[trigger] hits.deep_view()[j]).count
                        >= th.min_transactions_for_pattern,
            decreases n - i,
        {
            let ghost pre = self.token_movements.deep_view().take(i as int);
            proof {
                assert(self.token_movements.deep_view()[i as int] == self.token_movements@[
                    i as int].deep_view());
            }
            let mv = &self.token_movements[i];
            let ghost mvv = self.token_movements.deep_view()[i as int];
            // Whale-sized buys in the window.
            let nb = mv.buys.len();
            let mut whale_buys: usize = 0;
            let mut whale_buy_total: u128 = 0;
            let mut b: usize = 0;
            while b < nb
                invariant
                    nb == mv.buys@.len(),
                    mvv.buys == mv.buys.deep_view(),
                    b <= nb,
                    whale_buys <= b,
                    whale_buys as int == whale_side_count(
                        mvv.buys.take(b as int),
                        th.whale_threshold_lamports,
                    ),
                    whale_buy_total as int == whale_side_total(
                        mvv.buys.take(b as int),
                        th.whale_threshold_lamports,
                    ),
                    whale_buy_total <= (b as int) * 0xffff_ffff_ffff_ffff,
                decreases nb - b,
            {
                proof {
                    assert(mvv.buys[b as int] == mv.buys@[b as int].deep_view());
                    assert(mvv.buys.take(b + 1).drop_last() =~= mvv.buys.take(b as int));
                    assert(mvv.buys.take(b + 1).last() == mvv.buys[b as int]);
                }
                if mv.buys[b].amount_lamports >= th.whale_threshold_lamports {
                    whale_buys += 1;
                    proof {
                        assert((b as int + 1) * 0xffff_ffff_ffff_ffff <= u128::MAX)
                            by (nonlinear_arith)
                            requires
                                b as int + 1 <= 0xffff_ffff_ffff_ffff,
                        ;
                    }
                    whale_buy_total = whale_buy_total + (mv.buys[b].amount_lamports as u128);
                }
                b += 1;
            }
            proof {
                assert(mvv.buys.take(nb as int) =~= mvv.buys);
            }
            let ghost h_start = hits.deep_view();
            if whale_buys >= th.min_transactions_for_pattern {
                let ghost h0 = hits.deep_view();
                let hit = PatternHit {
                    mint: mv.mint.clone(),
                    is_buy: true,
                    count: whale_buys,
                    total_lamports: whale_buy_total,
                };
                let ghost hv = hit.deep_view();
                hits.push(hit);
                proof {
                    assert(hits.deep_view() =~= h0.push(hv));
                }
            }
            // Whale-sized sells in the window.
            let ns = mv.sells.len();
            let mut whale_sells: usize = 0;
            let mut whale_sell_total: u128 = 0;
            let mut c: usize = 0;
            while c < ns
                invariant
                    ns == mv.sells@.len(),
                    mvv.sells == mv.sells.deep_view(),
                    c <= ns,
                    whale_sells <= c,
                    whale_sells as int == whale_side_count(
                        mvv.sells.take(c as int),
                        th.whale_threshold_lamports,
                    ),
                    whale_sell_total as int == whale_side_total(
                        mvv.sells.take(c as int),
                        th.whale_threshold_lamports,
                    ),
                    whale_sell_total <= (c as int) * 0xffff_ffff_ffff_ffff,
                decreases ns - c,
            {
                proof {
                    assert(mvv.sells[c as int] == mv.sells@[c as int].deep_view());
                    assert(mvv.sells.take(c + 1).drop_last() =~= mvv.sells.take(c as int));
                    assert(mvv.sells.take(c + 1).last() == mvv.sells[c as int]);
                }
                if mv.sells[c].amount_lamports >= th.whale_threshold_lamports {
                    whale_sells += 1;
                    proof {
                        assert((c as int + 1) * 0xffff_ffff_ffff_ffff <= u128::MAX)
                            by (nonlinear_arith)
                            requires
                                c as int + 1 <= 0xffff_ffff_ffff_ffff,
                        ;
                    }
                    whale_sell_total = whale_sell_total + (mv.sells[c].amount_lamports as u128);
                }
                c += 1;
            }
            proof {
                assert(mvv.sells.take(ns as int) =~= mvv.sells);
            }
            if whale_sells >= th.min_transactions_for_pattern {
                let ghost h0 = hits.deep_view();
                let hit = PatternHit {
                    mint: mv.mint.clone(),
                    is_buy: false,
                    count: whale_sells,
                    total_lamports: whale_sell_total,
                };
                let ghost hv = hit.deep_view();
                hits.push(hit);
                proof {
                    assert(hits.deep_view() =~= h0.push(hv));
                }
            }
            // Keep only movements with something left in their windows.
            if mv.buys.len() > 0 || mv.sells.len() > 0 {
                let item = clone_movement(&self.token_movements[i]);
                let ghost o0 = kept.deep_view();
                let ghost iv = item.deep_view();
                kept.push(item);
                proof {
                    assert(kept.deep_view() =~= o0.push(iv));
                }
            }
            proof {
                reveal(Seq::filter);
                let next = self.token_movements.deep_view().take(i + 1);
                assert(next.drop_last() =~= pre);
                assert(next.last() == self.token_movements.deep_view()[i as int]);
                assert(kept.deep_view() =~= next.filter(
                    |m: TokenMovementV| m.buys.len() > 0 || m.sells.len() > 0,
                ));
                assert(hits.deep_view() =~= h_start + movement_hits(mvv, th));
                assert(pattern_hits_spec(next, th) == pattern_hits_spec(pre, th)
                    + movement_hits(mvv, th));
                assert(hits.deep_view() =~= pattern_hits_spec(next, th));
            }
            i += 1;
        }
        proof {
            assert(self.token_movements.deep_view().take(n as int)
                =~= self.token_movements.deep_view());
        }
        self.token_movements = kept;
        proof {
            crate::keyed::lemma_unique_filter(
                old(self).movements_view(),
                |m: TokenMovementV| m.buys.len() > 0 || m.sells.len() > 0,
            );
        }
        hits
    }
}

/// Spec-level image of a [`PatternHit`].
#[verifier::ext_equal]
pub struct PatternHitV {
    pub mint: Seq<char>,
    pub is_buy: bool,
    pub count: usize,
    pub total_lamports: u128,
}

impl DeepView for PatternHit {
    type V = PatternHitV;

    open spec fn deep_view(&self) -> PatternHitV {
        PatternHitV {
            mint: self.mint@,
            is_buy: self.is_buy,
            count: self.count,
            total_lamports: self.total_lamports,
        }
    }
}


/// A whale listing entry: the wallet with only its last ten transactions.
pub open spec fn whale_summary(w: WatchedWalletV) -> WatchedWalletV {
    WatchedWalletV {
        transactions: w.transactions.skip(
            if w.transactions.len() > 10 {
                w.transactions.len() - 10
            } else {
                0
            },
        ),
        ..w
    }
}

/// The ranking key of a movement: the magnitude of its net flow.
pub open spec fn flow_key(nf: i128) -> int {
    if nf >= 0 {
        nf as int
    } else if nf == i128::MIN {
        i128::MAX as int
    } else {
        -(nf as int)
    }
}

/// The lamports a movement's window moved, both sides together.
pub open spec fn movement_volume(m: TokenMovementV) -> int {
    tx_sum(m.buys) + tx_sum(m.sells)
}

/// `t` reports one of the tracked movements: its mint, its net flow, and
/// its window volume (both sides summed, clipped into `u128`).
pub open spec fn mover_comes_from(movs: Seq<TokenMovementV>, t: TopMoverV) -> bool {
    exists|k: int|
        0 <= k < movs.len() && t.mint == (#[trigger] movs[k]).mint && t.net_flow == movs[k].net_flow
            && t.volume as int == (if movement_volume(movs[k]) <= u128::MAX {
            movement_volume(movs[k])
        } else {
            u128::MAX as int
        })
}

impl WhaleWatcher {
    /// Every whale wallet, each with only its last ten transactions.
    pub fn get_whales(&self) -> (r: Vec<WatchedWallet>)
        ensures
            r.deep_view() == self.wallets_view().filter(|w: WatchedWalletV| w.is_whale).map_values(
                |w: WatchedWalletV| whale_summary(w),
            ),
    {
        let n = self.watched_wallets.len();
        let mut out: Vec<WatchedWallet> = Vec::new();
        let mut i: usize = 0;
        while i < n
            invariant
                n == self.watched_wallets@.len(),
                i <= n,
                out.deep_view() == self.watched_wallets.deep_view().take(i as int).filter(
                    |w: WatchedWalletV| w.is_whale,
                ).map_values(|w: WatchedWalletV| whale_summary(w)),
            decreases n - i,
        {
            let ghost pre = self.watched_wallets.deep_view().take(i as int);
            proof {
                assert(self.watched_wallets.deep_view()[i as int] == self.watched_wallets@[
                    i as int].deep_view());
            }
            if self.watched_wallets[i].is_whale {
                let w = &self.watched_wallets[i];
                let len = w.transactions.len();
                let start = if len > 10 {
                    len - 10
                } else {
                    0
                };
                let mut txs: Vec<TxInfo> = Vec::new();
                let mut k: usize = start;
                while k < len
                    invariant
                        len == w.transactions@.len(),
                        start <= k <= len,
                        txs.deep_view() =~= w.transactions.deep_view().subrange(
                            start as int,
                            k as int,
                        ),
                    decreases len - k,
                {
                    proof {
                        assert(w.transactions.deep_view()[k as int] == w.transactions@[
                            k as int].deep_view());
                    }
                    let item = clone_tx_info(&w.transactions[k]);
                    let ghost o0 = txs.deep_view();
                    let ghost iv = item.deep_view();
                    txs.push(item);
                    proof {
                        assert(txs.deep_view() =~= o0.push(iv));
                        assert(txs.deep_view() =~= w.transactions.deep_view().subrange(
                            start as int,
                            k + 1,
                        ));
                    }
                    k += 1;
                }
                let summary = WatchedWallet {
                    address: w.address.clone(),
                    label: w.label.clone(),
                    total_volume: w.total_volume,
                    is_whale: w.is_whale,
                    transactions: txs,
                    last_activity: match &w.last_activity {
                        Some(s) => Some(s.clone()),
                        None => None,
                    },
                };
                let ghost o0 = out.deep_view();
                let ghost sv = summary.deep_view();
                proof {
                    assert(w.transactions.deep_view().subrange(start as int, len as int)
                        =~= w.transactions.deep_view().skip(start as int));
                    assert(sv =~~= whale_summary(self.watched_wallets.deep_view()[i as int]));
                }
                out.push(summary);
                proof {
                    assert(out.deep_view() =~= o0.push(sv));
                }
            }
            proof {
                reveal(Seq::filter);
                let next = self.watched_wallets.deep_view().take(i + 1);
                assert(next.drop_last() =~= pre);
                assert(next.last() == self.watched_wallets.deep_view()[i as int]);
                assert(out.deep_view() =~= next.filter(|w: WatchedWalletV| w.is_whale).map_values(
                    |w: WatchedWalletV| whale_summary(w),
                ));
            }
            i += 1;
        }
        proof {
            assert(self.watched_wallets.deep_view().take(n as int)
                =~= self.watched_wallets.deep_view());
        }
        out
    }

    /// The movements ranked by the magnitude of their net flow, largest
    /// first, at most `limit` of them; each carries its window volume, no
    /// mint repeats, and nothing left out flows more than the last returned.
    pub fn get_top_movers(&self, limit: usize) -> (r: Vec<TopMover>)
        requires
            self.wf(),
        ensures
            r.deep_view().len() == if limit <= self.movements_view().len() {
                limit as int
            } else {
                self.movements_view().len() as int
            },
            forall|a: int, b: int|
                0 <= a <= b < r.deep_view().len() ==> flow_key(
                    (#[trigger] r.deep_view()[a]).net_flow,
                ) >= flow_key((#[trigger] r.deep_view()[b]).net_flow),
            forall|j: int|
                0 <= j < r.deep_view().len() ==> mover_comes_from(
                    self.movements_view(),
                    #[trigger] r.deep_view()[j],
                ),
            forall|j1: int, j2: int|
                0 <= j1 < j2 < r.deep_view().len() ==> (#[trigger] r.deep_view()[j1]).mint != (
                #[trigger] r.deep_view()[j2]).mint,
            forall|k: int|
                0 <= k < self.movements_view().len() && r.deep_view().len() > 0 && (forall|j: int|
                    0 <= j < r.deep_view().len() ==> (#[trigger] r.deep_view()[j]).mint != (
                    self.movements_view()[k]).mint) ==> flow_key(
                    (#[trigger] self.movements_view()[k]).net_flow,
                ) <= flow_key(r.deep_view()[r.deep_view().len() - 1].net_flow),
    {
        let n = self.token_movements.len();
        let mut pairs: Vec<(i128, usize)> = Vec::new();
        let mut i: usize = 0;
        while i < n
            invariant
                n == self.token_movements@.len(),
                i <= n,
                pairs@.len() == i as int,
                forall|k: int|
                    0 <= k < i ==> (#[trigger] pairs@[k]) == (
                    flow_key(self.token_movements.deep_view()[k].net_flow) as i128,
                    k as usize,
                ),
            decreases n - i,
        {
            proof {
                assert(self.token_movements.deep_view()[i as int] == self.token_movements@[
                    i as int].deep_view());
            }
            let nf = self.token_movements[i].net_flow;
            let key: i128 = if nf >= 0 {
                nf
            } else if nf == i128::MIN {
                i128::MAX
            } else {
                -nf
            };
            pairs.push((key, i));
            i += 1;
        }
        proof {
            assert forall|a: int, b: int| 0 <= a < b < pairs@.len() implies pairs@[a] != pairs@[b]
                by {
                assert(pairs@[a].1 == a as usize);
                assert(pairs@[b].1 == b as usize);
            }
            pairs@.lemma_multiset_has_no_duplicates();
            assert(pairs@.no_duplicates());
        }
        let ghost orig_pairs = pairs@;
        let sorted = crate::order::sort_pairs_desc(pairs);
        proof {
            assert forall|q1: int, q2: int| 0 <= q1 < q2 < sorted@.len() implies (
            #[trigger] sorted@[q1]).1 != (#[trigger] sorted@[q2]).1 by {
                if sorted@[q1].1 == sorted@[q2].1 {
                    assert(sorted@.contains(sorted@[q1]));
                    assert(sorted@.to_multiset().count(sorted@[q1]) > 0);
                    assert(orig_pairs.to_multiset().count(sorted@[q1]) > 0);
                    assert(orig_pairs.contains(sorted@[q1]));
                    let k1 = choose|k: int|
                        0 <= k < orig_pairs.len() && orig_pairs[k] == sorted@[q1];
                    assert(sorted@[q1].1 as int == k1);
                    assert(sorted@.contains(sorted@[q2]));
                    assert(sorted@.to_multiset().count(sorted@[q2]) > 0);
                    assert(orig_pairs.to_multiset().count(sorted@[q2]) > 0);
                    assert(orig_pairs.contains(sorted@[q2]));
                    let k2 = choose|k: int|
                        0 <= k < orig_pairs.len() && orig_pairs[k] == sorted@[q2];
                    assert(sorted@[q2].1 as int == k2);
                    assert(sorted@[q1] == sorted@[q2]);
                }
            }
        }
        let count = if limit <= n {
            limit
        } else {
            n
        };
        let mut out: Vec<TopMover> = Vec::new();
        let mut j: usize = 0;
        while j < count
            invariant
                self.wf(),
                count <= n,
                n == self.token_movements@.len(),
                j <= count,
                sorted@.len() == n as int,
                crate::order::sorted_desc(sorted@),
                sorted@.to_multiset() == orig_pairs.to_multiset(),
                orig_pairs.len() == n as int,
                forall|k: int|
                    0 <= k < n ==> (#[trigger] orig_pairs[k]) == (
                    flow_key(self.token_movements.deep_view()[k].net_flow) as i128,
                    k as usize,
                ),
                out.deep_view().len() == j as int,
                forall|q: int| 0 <= q < j ==> 0 <= (#[trigger] sorted@[q]).1 < n,
                forall|q1: int, q2: int|
                    0 <= q1 < q2 < sorted@.len() ==> (#[trigger] sorted@[q1]).1 != (
                    #[trigger] sorted@[q2]).1,
                forall|q: int|
                    0 <= q < j ==> (#[trigger] out.deep_view()[q]).net_flow
                        == self.token_movements.deep_view()[sorted@[q].1 as int].net_flow
                        && out.deep_view()[q].mint == self.token_movements.deep_view()[
                        sorted@[q].1 as int].mint && flow_key(out.deep_view()[q].net_flow)
                        == sorted@[q].0 && out.deep_view()[q].volume as int == (if movement_volume(
                        self.token_movements.deep_view()[sorted@[q].1 as int],
                    ) <= u128::MAX {
                        movement_volume(self.token_movements.deep_view()[sorted@[q].1 as int])
                    } else {
                        u128::MAX as int
                    }),
            decreases count - j,
        {
            proof {
                assert(sorted@.contains(sorted@[j as int]));
                assert(sorted@.to_multiset().count(sorted@[j as int]) > 0);
                assert(orig_pairs.to_multiset().count(sorted@[j as int]) > 0);
                assert(orig_pairs.contains(sorted@[j as int]));
                let k = choose|k: int|
                    0 <= k < orig_pairs.len() && orig_pairs[k] == sorted@[j as int];
                assert(orig_pairs[k] == (
                    flow_key(self.token_movements.deep_view()[k].net_flow) as i128,
                    k as usize,
                ));
                assert(sorted@[j as int].1 as int == k);
            }
            let idx = sorted[j].1;
            let mv = &self.token_movements[idx];
            let bl = mv.buys.len();
            let sl = mv.sells.len();
            proof {
                assert(self.token_movements.deep_view()[idx as int] == self.token_movements@[
                    idx as int].deep_view());
                assert((bl as int) * 0xffff_ffff_ffff_ffff <= u128::MAX) by (nonlinear_arith)
                    requires
                        bl as int <= 0xffff_ffff_ffff_ffff,
                ;
                assert((sl as int) * 0xffff_ffff_ffff_ffff <= u128::MAX) by (nonlinear_arith)
                    requires
                        sl as int <= 0xffff_ffff_ffff_ffff,
                ;
            }
            let buy_vol = sum_tx_list(&mv.buys);
            let sell_vol = sum_tx_list(&mv.sells);
            let volume = add_saturating(buy_vol, sell_vol);
            let item = TopMover { mint: mv.mint.clone(), net_flow: mv.net_flow, volume };
            let ghost o0 = out.deep_view();
            let ghost iv = item.deep_view();
            out.push(item);
            proof {
                assert(out.deep_view() =~= o0.push(iv));
            }
            j += 1;
        }
        proof {
            assert forall|a: int, b: int| 0 <= a <= b < out.deep_view().len() implies flow_key(
                (#[trigger] out.deep_view()[a]).net_flow,
            ) >= flow_key((#[trigger] out.deep_view()[b]).net_flow) by {
                assert(sorted@[a].0 >= sorted@[b].0);
            }
            assert forall|q: int| 0 <= q < out.deep_view().len() implies mover_comes_from(
                self.movements_view(),
                #[trigger] out.deep_view()[q],
            ) by {
                let k = sorted@[q].1 as int;
                assert(0 <= k < self.movements_view().len() && out.deep_view()[q].mint
                    == self.movements_view()[k].mint && out.deep_view()[q].net_flow
                    == self.movements_view()[k].net_flow && out.deep_view()[q].volume as int == (
                if movement_volume(self.movements_view()[k]) <= u128::MAX {
                    movement_volume(self.movements_view()[k])
                } else {
                    u128::MAX as int
                }));
            }
            assert forall|j1: int, j2: int| 0 <= j1 < j2 < out.deep_view().len() implies (
            #[trigger] out.deep_view()[j1]).mint != (#[trigger] out.deep_view()[j2]).mint by {
                let k1 = sorted@[j1].1 as int;
                let k2 = sorted@[j2].1 as int;
                assert(k1 != k2);
                assert(self.movements_view()[k1].key() != self.movements_view()[k2].key());
            }
            assert forall|k: int|
                0 <= k < self.movements_view().len() && out.deep_view().len() > 0 && (forall|
                    j: int,
                |
                    0 <= j < out.deep_view().len() ==> (#[trigger] out.deep_view()[j]).mint != (
                    self.movements_view()[k]).mint) implies flow_key(
                (#[trigger] self.movements_view()[k]).net_flow,
            ) <= flow_key(out.deep_view()[out.deep_view().len() - 1].net_flow) by {
                assert(orig_pairs[k] == (
                    flow_key(self.token_movements.deep_view()[k].net_flow) as i128,
                    k as usize,
                ));
                assert(orig_pairs.contains(orig_pairs[k]));
                assert(orig_pairs.to_multiset().count(orig_pairs[k]) > 0);
                assert(sorted@.to_multiset().count(orig_pairs[k]) > 0);
                assert(sorted@.contains(orig_pairs[k]));
                let p = choose|p: int| 0 <= p < sorted@.len() && sorted@[p] == orig_pairs[k];
                if p < out.deep_view().len() {
                    assert(sorted@[p].1 as int == k);
                    assert(out.deep_view()[p].mint == self.movements_view()[k].mint);
                } else {
                    assert(sorted@[out.deep_view().len() - 1].0 >= sorted@[p].0);
                    assert(flow_key(out.deep_view()[out.deep_view().len() - 1].net_flow)
                        == sorted@[out.deep_view().len() - 1].0);
                }
            }
        }
        out
    }

    /// Fills the tracked wallets from persisted whale rows; every loaded
    /// address is tracked (as a whale) afterwards.
    pub fn load_known_whales(&mut self, whales: &Vec<WalletRecord>)
        requires
            old(self).wf(),
        ensures
            final(self).wf(),
            forall|j: int|
                0 <= j < whales@.len() ==> has_key(
                    final(self).wallets_view(),
                    (#[trigger] whales.deep_view()[j]).address,
                ),
            final(self).movements_view() == old(self).movements_view(),
            final(self).thresholds_spec() == old(self).thresholds_spec(),
    {
        let n = whales.len();
        let mut i: usize = 0;
        while i < n
            invariant
                n == whales@.len(),
                i <= n,
                self.wf(),
                self.token_movements.deep_view() == old(self).movements_view(),
                self.thresholds == old(self).thresholds,
                forall|j: int|
                    0 <= j < i ==> has_key(
                        self.watched_wallets.deep_view(),
                        (#[trigger] whales.deep_view()[j]).address,
                    ),
            decreases n - i,
        {
            proof {
                assert(whales.deep_view()[i as int] == whales@[i as int].deep_view());
            }
            let rec = &whales[i];
            let entry = WatchedWallet {
                address: rec.address.clone(),
                label: rec.label.clone(),
                total_volume: rec.total_volume_lamports,
                is_whale: true,
                transactions: Vec::new(),
                last_activity: match &rec.last_activity {
                    Some(s) => Some(s.clone()),
                    None => None,
                },
            };
            let ghost ev = entry.deep_view();
            let ghost ws0 = self.watched_wallets.deep_view();
            proof {
                assert(entry.transactions.deep_view() =~= Seq::<TxInfoV>::empty());
                lemma_idx_of(ws0, ev.key());
                lemma_upsert_unique(ws0, ev);
            }
            let pos = wallet_entry_pos(&self.watched_wallets, rec.address.as_str());
            match pos {
                Some(k) => {
                    self.watched_wallets.set(k, entry);
                    proof {
                        assert(self.watched_wallets.deep_view() =~= ws0.update(k as int, ev));
                    }
                },
                None => {
                    self.watched_wallets.push(entry);
                    proof {
                        assert(self.watched_wallets.deep_view() =~= ws0.push(ev));
                    }
                },
            }
            proof {
                assert(self.watched_wallets.deep_view() == upsert(ws0, ev));
                crate::keyed::lemma_upsert_get(ws0, ev);
                assert forall|j: int| 0 <= j < i + 1 implies has_key(
                    self.watched_wallets.deep_view(),
                    (#[trigger] whales.deep_view()[j]).address,
                ) by {
                    if j < i {
                        crate::keyed::lemma_upsert_keeps_key(
                            ws0,
                            ev,
                            whales.deep_view()[j].address,
                        );
                    }
                }
            }
            i += 1;
        }
    }
}

} // verus!
