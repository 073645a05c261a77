//! The persistence contract, as a verified in-memory model.
//!
//! The durable store behind the monitor is a key/value-like contract over
//! four tables: tokens upserted by mint, transactions inserted-or-ignored by
//! signature, wallets upserted by address, and an append-only alert log. This
//! module is that contract as executable, verified code; the surrounding
//! process may mirror every write to an embedded SQL database, whose schema
//! enforces the same keys.

use vstd::prelude::*;
use vstd::seq_lib::group_to_multiset_ensures;
use crate::keyed::{
    Keyed, has_key, idx_of, insert_new, lemma_idx_of, lemma_insert_new_idempotent,
    lemma_insert_new_unique, lemma_upsert_get, lemma_upsert_unique, unique_keys, upsert,
};
use crate::order::sort_pairs_desc;
use crate::text::str_eq;

verus! {

broadcast use group_to_multiset_ensures;

/// A token row, keyed by mint.
#[derive(Debug)]
pub struct TokenRecord {
    pub mint: String,
    pub name: String,
    pub symbol: String,
    pub creator: String,
    /// Creation time, as recorded (RFC 3339).
    pub created_at: String,
    /// Creation time in epoch milliseconds; orders the listing endpoints.
    pub created_at_ms: i64,
    /// Lamports of liquidity at detection.
    pub initial_liquidity: u64,
    /// Lamports of liquidity at the last reading.
    pub current_liquidity: u64,
    pub holder_count: i32,
    pub is_rugged: bool,
    pub rug_reason: Option<String>,
    /// Stamped on every upsert.
    pub last_updated: String,
}

/// Spec-level image of a [`TokenRecord`].
#[verifier::ext_equal]
pub struct TokenRecordV {
    pub mint: Seq<char>,
    pub name: Seq<char>,
    pub symbol: Seq<char>,
    pub creator: Seq<char>,
    pub created_at: Seq<char>,
    pub created_at_ms: i64,
    pub initial_liquidity: u64,
    pub current_liquidity: u64,
    pub holder_count: i32,
    pub is_rugged: bool,
    pub rug_reason: Option<Seq<char>>,
    pub last_updated: Seq<char>,
}

impl DeepView for TokenRecord {
    type V = TokenRecordV;

    open spec fn deep_view(&self) -> TokenRecordV {
        TokenRecordV {
            mint: self.mint@,
            name: self.name@,
            symbol: self.symbol@,
            creator: self.creator@,
            created_at: self.created_at@,
            created_at_ms: self.created_at_ms,
            initial_liquidity: self.initial_liquidity,
            current_liquidity: self.current_liquidity,
            holder_count: self.holder_count,
            is_rugged: self.is_rugged,
            rug_reason: self.rug_reason.deep_view(),
            last_updated: self.last_updated@,
        }
    }
}

impl Keyed for TokenRecordV {
    open spec fn key(&self) -> Seq<char> {
        self.mint
    }
}

/// A transaction row, keyed by signature.
#[derive(Debug)]
pub struct TransactionRecord {
    pub signature: String,
    pub mint: String,
    pub wallet: String,
    /// "buy" or "sell".
    pub tx_type: String,
    /// Lamports moved.
    pub amount_lamports: u64,
    /// Raw token units moved.
    pub amount_tokens: u64,
    /// As recorded (RFC 3339).
    pub timestamp: String,
    /// Epoch milliseconds; orders the listing endpoints.
    pub timestamp_ms: i64,
}

/// Spec-level image of a [`TransactionRecord`].
#[verifier::ext_equal]
pub struct TransactionRecordV {
    pub signature: Seq<char>,
    pub mint: Seq<char>,
    pub wallet: Seq<char>,
    pub tx_type: Seq<char>,
    pub amount_lamports: u64,
    pub amount_tokens: u64,
    pub timestamp: Seq<char>,
    pub timestamp_ms: i64,
}

impl DeepView for TransactionRecord {
    type V = TransactionRecordV;

    open spec fn deep_view(&self) -> TransactionRecordV {
        TransactionRecordV {
            signature: self.signature@,
            mint: self.mint@,
            wallet: self.wallet@,
            tx_type: self.tx_type@,
            amount_lamports: self.amount_lamports,
            amount_tokens: self.amount_tokens,
            timestamp: self.timestamp@,
            timestamp_ms: self.timestamp_ms,
        }
    }
}

impl Keyed for TransactionRecordV {
    open spec fn key(&self) -> Seq<char> {
        self.signature
    }
}

/// A wallet row, keyed by address.
#[derive(Debug)]
pub struct WalletRecord {
    pub address: String,
    pub label: String,
    /// Lifetime traded lamports.
    pub total_volume_lamports: u128,
    pub last_activity: Option<String>,
    pub is_whale: bool,
}

/// Spec-level image of a [`WalletRecord`].
#[verifier::ext_equal]
pub struct WalletRecordV {
    pub address: Seq<char>,
    pub label: Seq<char>,
    pub total_volume_lamports: u128,
    pub last_activity: Option<Seq<char>>,
    pub is_whale: bool,
}

impl DeepView for WalletRecord {
    type V = WalletRecordV;

    open spec fn deep_view(&self) -> WalletRecordV {
        WalletRecordV {
            address: self.address@,
            label: self.label@,
            total_volume_lamports: self.total_volume_lamports,
            last_activity: self.last_activity.deep_view(),
            is_whale: self.is_whale,
        }
    }
}

impl Keyed for WalletRecordV {
    open spec fn key(&self) -> Seq<char> {
        self.address
    }
}

/// An alert row; ids count up from 1 in insertion order.
#[derive(Debug)]
pub struct AlertRecord {
    pub id: i64,
    pub alert_type: String,
    pub title: String,
    pub message: String,
    pub data: String,
    pub created_at: String,
}

/// Spec-level image of an [`AlertRecord`].
#[verifier::ext_equal]
pub struct AlertRecordV {
    pub id: i64,
    pub alert_type: Seq<char>,
    pub title: Seq<char>,
    pub message: Seq<char>,
    pub data: Seq<char>,
    pub created_at: Seq<char>,
}

impl DeepView for AlertRecord {
    type V = AlertRecordV;

    open spec fn deep_view(&self) -> AlertRecordV {
        AlertRecordV {
            id: self.id,
            alert_type: self.alert_type@,
            title: self.title@,
            message: self.message@,
            data: self.data@,
            created_at: self.created_at@,
        }
    }
}

/// Row counts over the store.
#[derive(Debug, Clone, Copy, PartialEq, Eq, Structural)]
pub struct DbStats {
    pub total_tokens: i64,
    pub rugged_tokens: i64,
    pub whales: i64,
    pub alerts: i64,
}

/// The in-memory store.
#[derive(Debug)]
pub struct DatabaseService {
    tokens: Vec<TokenRecord>,
    transactions: Vec<TransactionRecord>,
    wallets: Vec<WalletRecord>,
    alerts: Vec<AlertRecord>,
}

/// Copies a token record field by field.
fn clone_token(t: &TokenRecord) -> (r: TokenRecord)
    ensures
        r.deep_view() == t.deep_view(),
{
    TokenRecord {
        mint: t.mint.clone(),
        name: t.name.clone(),
        symbol: t.symbol.clone(),
        creator: t.creator.clone(),
        created_at: t.created_at.clone(),
        created_at_ms: t.created_at_ms,
        initial_liquidity: t.initial_liquidity,
        current_liquidity: t.current_liquidity,
        holder_count: t.holder_count,
        is_rugged: t.is_rugged,
        rug_reason: match &t.rug_reason {
            Some(s) => Some(s.clone()),
            None => None,
        },
        last_updated: t.last_updated.clone(),
    }
}

/// Copies a transaction record field by field.
fn clone_transaction(t: &TransactionRecord) -> (r: TransactionRecord)
    ensures
        r.deep_view() == t.deep_view(),
{
    TransactionRecord {
        signature: t.signature.clone(),
        mint: t.mint.clone(),
        wallet: t.wallet.clone(),
        tx_type: t.tx_type.clone(),
        amount_lamports: t.amount_lamports,
        amount_tokens: t.amount_tokens,
        timestamp: t.timestamp.clone(),
        timestamp_ms: t.timestamp_ms,
    }
}

/// Copies a wallet record field by field.
pub fn clone_wallet(w: &WalletRecord) -> (r: WalletRecord)
    ensures
        r.deep_view() == w.deep_view(),
{
    WalletRecord {
        address: w.address.clone(),
        label: w.label.clone(),
        total_volume_lamports: w.total_volume_lamports,
        last_activity: match &w.last_activity {
            Some(s) => Some(s.clone()),
            None => None,
        },
        is_whale: w.is_whale,
    }
}

/// Copies an alert record field by field.
fn clone_alert(a: &AlertRecord) -> (r: AlertRecord)
    ensures
        r.deep_view() == a.deep_view(),
{
    AlertRecord {
        id: a.id,
        alert_type: a.alert_type.clone(),
        title: a.title.clone(),
        message: a.message.clone(),
        data: a.data.clone(),
        created_at: a.created_at.clone(),
    }
}

/// First position of `mint` among the token rows.
fn token_pos(tokens: &Vec<TokenRecord>, mint: &str) -> (r: Option<usize>)
    ensures
        r matches Some(i) ==> i < tokens@.len() && idx_of(tokens.deep_view(), mint@) == i,
        r is None ==> idx_of(tokens.deep_view(), mint@) == -1,
{
    let n = tokens.len();
    let mut i: usize = 0;
    while i < n
        invariant
            n == tokens@.len(),
            i <= n,
            forall|k: int| 0 <= k < i ==> (#[trigger] tokens.deep_view()[k]).mint != mint@,
        decreases n - i,
    {
        proof {
            assert(tokens.deep_view()[i as int] == tokens@[i as int].deep_view());
        }
        if str_eq(tokens[i].mint.as_str(), mint) {
            proof {
                let s = tokens.deep_view();
                lemma_idx_of(s, mint@);
                assert(s[i as int].key() == mint@);
                let x = idx_of(s, mint@);
                if x < i as int {
                    assert(s[x].mint != mint@);
                    assert(s[x].key() == mint@);
                }
                if x > i as int {
                    assert(s[i as int].key() != mint@);
                }
            }
            return Some(i);
        }
        i += 1;
    }
    proof {
        let s = tokens.deep_view();
        lemma_idx_of(s, mint@);
        let x = idx_of(s, mint@);
        if x >= 0 {
            assert(s[x].key() == mint@);
            assert(s[x].mint != mint@);
        }
    }
    None
}

/// First position of `signature` among the transaction rows.
fn transaction_pos(txs: &Vec<TransactionRecord>, signature: &str) -> (r: Option<usize>)
    ensures
        r matches Some(i) ==> i < txs@.len() && idx_of(txs.deep_view(), signature@) == i,
        r is None ==> idx_of(txs.deep_view(), signature@) == -1,
{
    let n = txs.len();
    let mut i: usize = 0;
    while i < n
        invariant
            n == txs@.len(),
            i <= n,
            forall|k: int| 0 <= k < i ==> (#[trigger] txs.deep_view()[k]).signature != signature@,
        decreases n - i,
    {
        proof {
            assert(txs.deep_view()[i as int] == txs@[i as int].deep_view());
        }
        if str_eq(txs[i].signature.as_str(), signature) {
            proof {
                let s = txs.deep_view();
                lemma_idx_of(s, signature@);
                assert(s[i as int].key() == signature@);
                let x = idx_of(s, signature@);
                if x < i as int {
                    assert(s[x].signature != signature@);
                    assert(s[x].key() == signature@);
                }
                if x > i as int {
                    assert(s[i as int].key() != signature@);
                }
            }
            return Some(i);
        }
        i += 1;
    }
    proof {
        let s = txs.deep_view();
        lemma_idx_of(s, signature@);
        let x = idx_of(s, signature@);
        if x >= 0 {
            assert(s[x].key() == signature@);
            assert(s[x].signature != signature@);
        }
    }
    None
}

/// First position of `address` among the wallet rows.
fn wallet_pos(wallets: &Vec<WalletRecord>, address: &str) -> (r: Option<usize>)
    ensures
        r matches Some(i) ==> i < wallets@.len() && idx_of(wallets.deep_view(), address@) == i,
        r is None ==> idx_of(wallets.deep_view(), address@) == -1,
{
    let n = wallets.len();
    let mut i: usize = 0;
    while i < n
        invariant
            n == wallets@.len(),
            i <= n,
            forall|k: int| 0 <= k < i ==> (#[trigger] wallets.deep_view()[k]).address != address@,
        decreases n - i,
    {
        proof {
            assert(wallets.deep_view()[i as int] == wallets@[i as int].deep_view());
        }
        if str_eq(wallets[i].address.as_str(), address) {
            proof {
                let s = wallets.deep_view();
                lemma_idx_of(s, address@);
                assert(s[i as int].key() == address@);
                let x = idx_of(s, address@);
                if x < i as int {
                    assert(s[x].address != address@);
                    assert(s[x].key() == address@);
                }
                if x > i as int {
                    assert(s[i as int].key() != address@);
                }
            }
            return Some(i);
        }
        i += 1;
    }
    proof {
        let s = wallets.deep_view();
        lemma_idx_of(s, address@);
        let x = idx_of(s, address@);
        if x >= 0 {
            assert(s[x].key() == address@);
            assert(s[x].address != address@);
        }
    }
    None
}

impl DatabaseService {
    /// The store is consistent: each table's key is unique, alert ids count
    /// up from 1.
    pub closed spec fn wf(&self) -> bool {
        &&& unique_keys(self.tokens.deep_view())
        &&& unique_keys(self.transactions.deep_view())
        &&& unique_keys(self.wallets.deep_view())
        &&& forall|i: int|
            0 <= i < self.alerts.deep_view().len() ==> (#[trigger] self.alerts.deep_view()[i]).id
                == i + 1
        &&& self.alerts.deep_view().len() < 0x7fff_ffff_ffff_ffff
    }

    pub closed spec fn tokens_view(&self) -> Seq<TokenRecordV> {
        self.tokens.deep_view()
    }

    pub closed spec fn transactions_view(&self) -> Seq<TransactionRecordV> {
        self.transactions.deep_view()
    }

    pub closed spec fn wallets_view(&self) -> Seq<WalletRecordV> {
        self.wallets.deep_view()
    }

    pub closed spec fn alerts_view(&self) -> Seq<AlertRecordV> {
        self.alerts.deep_view()
    }

    /// An empty store.
    pub fn new() -> (r: DatabaseService)
        ensures
            r.wf(),
            r.tokens_view() == Seq::<TokenRecordV>::empty(),
            r.transactions_view() == Seq::<TransactionRecordV>::empty(),
            r.wallets_view() == Seq::<WalletRecordV>::empty(),
            r.alerts_view() == Seq::<AlertRecordV>::empty(),
    {
        let r = DatabaseService {
            tokens: Vec::new(),
            transactions: Vec::new(),
            wallets: Vec::new(),
            alerts: Vec::new(),
        };
        proof {
            assert(r.tokens.deep_view() =~= Seq::<TokenRecordV>::empty());
            assert(r.transactions.deep_view() =~= Seq::<TransactionRecordV>::empty());
            assert(r.wallets.deep_view() =~= Seq::<WalletRecordV>::empty());
            assert(r.alerts.deep_view() =~= Seq::<AlertRecordV>::empty());
        }
        r
    }

    /// Upserts a token row by mint; `last_updated` is stamped with `now_iso`.
    pub fn save_token(&mut self, token: TokenRecord, now_iso: String)
        requires
            old(self).wf(),
        ensures
            final(self).wf(),
            final(self).tokens_view() == upsert(
                old(self).tokens_view(),
                (TokenRecordV { last_updated: now_iso@, ..token.deep_view() }),
            ),
            final(self).transactions_view() == old(self).transactions_view(),
            final(self).wallets_view() == old(self).wallets_view(),
            final(self).alerts_view() == old(self).alerts_view(),
    {
        let pos = token_pos(&self.tokens, token.mint.as_str());
        let stored = TokenRecord { last_updated: now_iso, ..token };
        let ghost s0 = self.tokens.deep_view();
        let ghost sv = stored.deep_view();
        proof {
            lemma_upsert_unique(s0, sv);
            lemma_idx_of(s0, sv.key());
        }
        match pos {
            Some(i) => {
                self.tokens.set(i, stored);
                proof {
                    assert(self.tokens.deep_view() =~= s0.update(i as int, sv));
                }
            },
            None => {
                self.tokens.push(stored);
                proof {
                    assert(self.tokens.deep_view() =~= s0.push(sv));
                }
            },
        }
    }

    /// The token row under `mint`, if any.
    pub fn get_token(&self, mint: &str) -> (r: Option<&TokenRecord>)
        ensures
            r is Some <==> has_key(self.tokens_view(), mint@),
            r matches Some(t) ==> t.deep_view() == self.tokens_view()[idx_of(
                self.tokens_view(),
                mint@,
            )],
    {
        match token_pos(&self.tokens, mint) {
            Some(i) => Some(&self.tokens[i]),
            None => None,
        }
    }

    /// Marks the token under `mint` as rugged with the given reason; a
    /// missing row is left alone.
    pub fn mark_as_rugged(&mut self, mint: &str, reason: &str)
        requires
            old(self).wf(),
        ensures
            final(self).wf(),
            !has_key(old(self).tokens_view(), mint@) ==> final(self).tokens_view() == old(
                self,
            ).tokens_view(),
            has_key(old(self).tokens_view(), mint@) ==> final(self).tokens_view() == old(
                self,
            ).tokens_view().update(
                idx_of(old(self).tokens_view(), mint@),
                (TokenRecordV {
                    is_rugged: true,
                    rug_reason: Some(reason@),
                    ..old(self).tokens_view()[idx_of(old(self).tokens_view(), mint@)]
                }),
            ),
            final(self).transactions_view() == old(self).transactions_view(),
            final(self).wallets_view() == old(self).wallets_view(),
            final(self).alerts_view() == old(self).alerts_view(),
    {
        let pos = token_pos(&self.tokens, mint);
        match pos {
            Some(i) => {
                let ghost s0 = self.tokens.deep_view();
                let mut updated = clone_token(&self.tokens[i]);
                updated.is_rugged = true;
                updated.rug_reason = Some(reason.to_owned());
                let ghost uv = updated.deep_view();
                self.tokens.set(i, updated);
                proof {
                    assert(self.tokens.deep_view() =~= s0.update(i as int, uv));
                    assert(uv =~= (TokenRecordV {
                        is_rugged: true,
                        rug_reason: Some(reason@),
                        ..s0[i as int]
                    }));
                    crate::keyed::lemma_unique_update(s0, i as int, uv);
                }
            },
            None => {},
        }
    }

    /// Inserts a transaction row unless its signature is already present.
    pub fn save_transaction(&mut self, tx: TransactionRecord)
        requires
            old(self).wf(),
        ensures
            final(self).wf(),
            final(self).transactions_view() == insert_new(old(self).transactions_view(), tx.deep_view()),
            final(self).tokens_view() == old(self).tokens_view(),
            final(self).wallets_view() == old(self).wallets_view(),
            final(self).alerts_view() == old(self).alerts_view(),
    {
        let ghost s0 = self.transactions.deep_view();
        let ghost tv = tx.deep_view();
        proof {
            lemma_insert_new_unique(s0, tv);
        }
        let pos = transaction_pos(&self.transactions, tx.signature.as_str());
        match pos {
            Some(_) => {},
            None => {
                self.transactions.push(tx);
                proof {
                    assert(self.transactions.deep_view() =~= s0.push(tv));
                }
            },
        }
    }

    /// Upserts a wallet row by address; `last_activity` is stamped with
    /// `now_iso`.
    pub fn save_wallet(&mut self, wallet: WalletRecord, now_iso: String)
        requires
            old(self).wf(),
        ensures
            final(self).wf(),
            final(self).wallets_view() == upsert(
                old(self).wallets_view(),
                (WalletRecordV { last_activity: Some(now_iso@), ..wallet.deep_view() }),
            ),
            final(self).tokens_view() == old(self).tokens_view(),
            final(self).transactions_view() == old(self).transactions_view(),
            final(self).alerts_view() == old(self).alerts_view(),
    {
        let pos = wallet_pos(&self.wallets, wallet.address.as_str());
        let stored = WalletRecord { last_activity: Some(now_iso), ..wallet };
        let ghost s0 = self.wallets.deep_view();
        let ghost sv = stored.deep_view();
        proof {
            lemma_upsert_unique(s0, sv);
            lemma_idx_of(s0, sv.key());
        }
        match pos {
            Some(i) => {
                self.wallets.set(i, stored);
                proof {
                    assert(self.wallets.deep_view() =~= s0.update(i as int, sv));
                }
            },
            None => {
                self.wallets.push(stored);
                proof {
                    assert(self.wallets.deep_view() =~= s0.push(sv));
                }
            },
        }
    }

    /// The wallet row under `address`, if any.
    pub fn get_wallet(&self, address: &str) -> (r: Option<&WalletRecord>)
        ensures
            r is Some <==> has_key(self.wallets_view(), address@),
            r matches Some(w) ==> w.deep_view() == self.wallets_view()[idx_of(
                self.wallets_view(),
                address@,
            )],
    {
        match wallet_pos(&self.wallets, address) {
            Some(i) => Some(&self.wallets[i]),
            None => None,
        }
    }

    /// All wallet rows marked as whales, in store order.
    pub fn get_whales(&self) -> (r: Vec<WalletRecord>)
        ensures
            r.deep_view() == self.wallets_view().filter(|w: WalletRecordV| w.is_whale),
    {
        let n = self.wallets.len();
        let mut out: Vec<WalletRecord> = Vec::new();
        let mut i: usize = 0;
        while i < n
            invariant
                n == self.wallets@.len(),
                i <= n,
                out.deep_view() == self.wallets.deep_view().take(i as int).filter(
                    |w: WalletRecordV| w.is_whale,
                ),
            decreases n - i,
        {
            let ghost pre = out.deep_view();
            let ghost taken = self.wallets.deep_view().take(i as int);
            proof {
                assert(self.wallets.deep_view()[i as int] == self.wallets@[i as int].deep_view());
            }
            if self.wallets[i].is_whale {
                let item = clone_wallet(&self.wallets[i]);
                let ghost iv = item.deep_view();
                out.push(item);
                proof {
                    assert(out.deep_view() =~= pre.push(iv));
                }
            }
            proof {
                reveal(Seq::filter);
                let next = self.wallets.deep_view().take(i + 1);
                assert(next.drop_last() =~= taken);
                assert(next.last() == self.wallets.deep_view()[i as int]);
                if self.wallets@[i as int].deep_view().is_whale {
                    assert(out.deep_view() =~= pre.push(self.wallets.deep_view()[i as int]));
                }
                assert(out.deep_view() =~= next.filter(|w: WalletRecordV| w.is_whale));
            }
            i += 1;
        }
        proof {
            assert(self.wallets.deep_view().take(n as int) =~= self.wallets.deep_view());
        }
        out
    }

    /// Appends an alert row; ids count up from 1.
    pub fn save_alert(&mut self, alert_type: &str, title: &str, message: &str, data: &str)
        requires
            old(self).wf(),
        ensures
            final(self).wf(),
            old(self).alerts_view().len() < 0x7fff_ffff_ffff_fffe ==> {
                &&& final(self).alerts_view().len() == old(self).alerts_view().len() + 1
                &&& final(self).alerts_view().last().id == (old(self).alerts_view().len()
                    + 1) as i64
                &&& final(self).alerts_view().last().alert_type == alert_type@
                &&& final(self).alerts_view().last().title == title@
                &&& final(self).alerts_view().last().message == message@
                &&& final(self).alerts_view().last().data == data@
            },
            old(self).alerts_view().len() >= 0x7fff_ffff_ffff_fffe ==> final(self).alerts_view()
                == old(self).alerts_view(),
            forall|j: int|
                0 <= j < old(self).alerts_view().len() ==> (#[trigger] final(self).alerts_view()[j])
                    == old(self).alerts_view()[j],
            final(self).tokens_view() == old(self).tokens_view(),
            final(self).transactions_view() == old(self).transactions_view(),
            final(self).wallets_view() == old(self).wallets_view(),
    {
        let len = self.alerts.len();
        if (len as u64) >= 0x7fff_ffff_ffff_fffe {
            return ;
        }
        let stamp = crate::clock::now_rfc3339();
        let id = len as i64 + 1;
        let rec = AlertRecord {
            id,
            alert_type: alert_type.to_owned(),
            title: title.to_owned(),
            message: message.to_owned(),
            data: data.to_owned(),
            created_at: stamp,
        };
        let ghost a0 = self.alerts.deep_view();
        let ghost rv = rec.deep_view();
        self.alerts.push(rec);
        proof {
            assert(self.alerts.deep_view() =~= a0.push(rv));
            assert(rv.id == a0.len() + 1);
            assert forall|i: int| 0 <= i < self.alerts.deep_view().len() implies (#[trigger] self
                .alerts
                .deep_view()[i]).id == i + 1 by {
                if i < a0.len() {
                    assert(self.alerts.deep_view()[i] == a0[i]);
                } else {
                    assert(self.alerts.deep_view()[i] == rv);
                }
            }
        }
    }

    /// The most recent alert rows, newest first.
    pub fn get_recent_alerts(&self, limit: usize) -> (r: Vec<AlertRecord>)
        ensures
            r.deep_view().len() == if limit <= self.alerts_view().len() {
                limit as int
            } else {
                self.alerts_view().len() as int
            },
            forall|j: int|
                0 <= j < r.deep_view().len() ==> (#[trigger] r.deep_view()[j]) == self.alerts_view()[
                    self.alerts_view().len() - 1 - j],
    {
        let n = self.alerts.len();
        let count = if limit <= n {
            limit
        } else {
            n
        };
        let mut out: Vec<AlertRecord> = Vec::new();
        let mut j: usize = 0;
        while j < count
            invariant
                n == self.alerts@.len(),
                count <= n,
                j <= count,
                out.deep_view().len() == j as int,
                forall|k: int|
                    0 <= k < j ==> (#[trigger] out.deep_view()[k]) == self.alerts.deep_view()[n
                        - 1 - k],
            decreases count - j,
        {
            proof {
                assert(self.alerts.deep_view()[n - 1 - j as int] == self.alerts@[n - 1
                    - j as int].deep_view());
            }
            let item = clone_alert(&self.alerts[n - 1 - j]);
            let ghost o0 = out.deep_view();
            let ghost iv = item.deep_view();
            out.push(item);
            proof {
                assert(out.deep_view() =~= o0.push(iv));
            }
            j += 1;
        }
        out
    }

    /// Row counts: every token, the rugged tokens, the whale wallets, every
    /// alert.
    pub fn get_stats(&self) -> (r: DbStats)
        requires
            self.tokens_view().len() < 0x7fff_ffff_ffff_ffff,
            self.transactions_view().len() < 0x7fff_ffff_ffff_ffff,
            self.wallets_view().len() < 0x7fff_ffff_ffff_ffff,
            self.alerts_view().len() < 0x7fff_ffff_ffff_ffff,
        ensures
            r.total_tokens == self.tokens_view().len(),
            r.rugged_tokens == self.tokens_view().filter(|t: TokenRecordV| t.is_rugged).len(),
            r.whales == self.wallets_view().filter(|w: WalletRecordV| w.is_whale).len(),
            r.alerts == self.alerts_view().len(),
    {
        let nt = self.tokens.len();
        let mut rugged: usize = 0;
        let mut i: usize = 0;
        while i < nt
            invariant
                nt == self.tokens@.len(),
                i <= nt,
                rugged as int == self.tokens.deep_view().take(i as int).filter(
                    |t: TokenRecordV| t.is_rugged,
                ).len(),
                rugged <= i,
            decreases nt - i,
        {
            let ghost taken = self.tokens.deep_view().take(i as int);
            proof {
                reveal(Seq::filter);
                assert(self.tokens.deep_view()[i as int] == self.tokens@[i as int].deep_view());
                let next = self.tokens.deep_view().take(i + 1);
                assert(next.drop_last() =~= taken);
                assert(next.last() == self.tokens.deep_view()[i as int]);
            }
            if self.tokens[i].is_rugged {
                rugged += 1;
            }
            i += 1;
        }
        proof {
            assert(self.tokens.deep_view().take(nt as int) =~= self.tokens.deep_view());
        }
        let nw = self.wallets.len();
        let mut whales: usize = 0;
        let mut k: usize = 0;
        while k < nw
            invariant
                nw == self.wallets@.len(),
                k <= nw,
                whales as int == self.wallets.deep_view().take(k as int).filter(
                    |w: WalletRecordV| w.is_whale,
                ).len(),
                whales <= k,
            decreases nw - k,
        {
            let ghost taken = self.wallets.deep_view().take(k as int);
            proof {
                reveal(Seq::filter);
                assert(self.wallets.deep_view()[k as int] == self.wallets@[k as int].deep_view());
                let next = self.wallets.deep_view().take(k + 1);
                assert(next.drop_last() =~= taken);
                assert(next.last() == self.wallets.deep_view()[k as int]);
            }
            if self.wallets[k].is_whale {
                whales += 1;
            }
            k += 1;
        }
        proof {
            assert(self.wallets.deep_view().take(nw as int) =~= self.wallets.deep_view());
        }
        DbStats {
            total_tokens: nt as i64,
            rugged_tokens: rugged as i64,
            whales: whales as i64,
            alerts: self.alerts.len() as i64,
        }
    }
}

/// A well-formed store's keys are unique: at most one row holds any mint,
/// signature or address. Exported for callers composing the store laws.
pub proof fn lemma_store_keys_unique(d: DatabaseService)
    requires
        d.wf(),
    ensures
        unique_keys(d.tokens_view()),
        unique_keys(d.transactions_view()),
        unique_keys(d.wallets_view()),
{
}

/// Persisting a token and fetching it by mint returns exactly the stored
/// fields; `last_updated` carries the stamp of the save.
pub proof fn lemma_token_round_trip(s: Seq<TokenRecordV>, rec: TokenRecordV)
    requires
        unique_keys(s),
    ensures
        has_key(upsert(s, rec), rec.mint),
        upsert(s, rec)[idx_of(upsert(s, rec), rec.mint)] == rec,
{
    lemma_upsert_get(s, rec);
}

/// Saving a transaction twice under one signature leaves exactly the row the
/// first save put there: the second save changes nothing, and under unique
/// signatures the key is held by a single row.
pub proof fn lemma_save_transaction_idempotent(
    s: Seq<TransactionRecordV>,
    rec: TransactionRecordV,
    rec2: TransactionRecordV,
)
    requires
        unique_keys(s),
        rec2.signature == rec.signature,
    ensures
        insert_new(insert_new(s, rec), rec2) == insert_new(s, rec),
        has_key(insert_new(s, rec), rec.signature),
        unique_keys(insert_new(s, rec)),
{
    lemma_insert_new_idempotent(s, rec, rec2);
}


/// `t` is one of the stored token rows.
pub open spec fn token_comes_from(rows: Seq<TokenRecordV>, t: TokenRecordV) -> bool {
    exists|k: int| 0 <= k < rows.len() && t == (#[trigger] rows[k])
}

/// `t` is one of the stored transaction rows, and names `mint`.
pub open spec fn transaction_comes_from(
    rows: Seq<TransactionRecordV>,
    t: TransactionRecordV,
) -> bool {
    exists|k: int| 0 <= k < rows.len() && t == (#[trigger] rows[k])
}

impl DatabaseService {
    /// The most recently created token rows, newest first by creation time,
    /// at most `limit` of them; no row repeats, and every stored row newer
    /// than a returned one is itself returned.
    pub fn get_recent_tokens(&self, limit: usize) -> (r: Vec<TokenRecord>)
        requires
            self.wf(),
        ensures
            r.deep_view().len() == if limit <= self.tokens_view().len() {
                limit as int
            } else {
                self.tokens_view().len() as int
            },
            forall|a: int, b: int|
                0 <= a <= b < r.deep_view().len() ==> (#[trigger] r.deep_view()[a]).created_at_ms
                    >= (#[trigger] r.deep_view()[b]).created_at_ms,
            forall|j: int|
                0 <= j < r.deep_view().len() ==> token_comes_from(
                    self.tokens_view(),
                    #[trigger] r.deep_view()[j],
                ),
            forall|j1: int, j2: int|
                0 <= j1 < j2 < r.deep_view().len() ==> (#[trigger] r.deep_view()[j1]).mint != (
                #[trigger] r.deep_view()[j2]).mint,
            forall|k: int|
                0 <= k < self.tokens_view().len() && r.deep_view().len() > 0 && (forall|j: int|
                    0 <= j < r.deep_view().len() ==> (#[trigger] r.deep_view()[j]).mint != (
                    self.tokens_view()[k]).mint) ==> (#[trigger] self.tokens_view()[
                k]).created_at_ms <= r.deep_view()[r.deep_view().len() - 1].created_at_ms,
    {
        let n = self.tokens.len();
        let mut pairs: Vec<(i128, usize)> = Vec::new();
        let mut i: usize = 0;
        while i < n
            invariant
                n == self.tokens@.len(),
                i <= n,
                pairs@.len() == i as int,
                forall|k: int|
                    0 <= k < i ==> (#[trigger] pairs@[k]) == (
                    self.tokens.deep_view()[k].created_at_ms as i128,
                    k as usize,
                ),
            decreases n - i,
        {
            proof {
                assert(self.tokens.deep_view()[i as int] == self.tokens@[i as int].deep_view());
            }
            pairs.push((self.tokens[i].created_at_ms as i128, i));
            i += 1;
        }
        let ghost orig_pairs = pairs@;
        let sorted = sort_pairs_desc(pairs);
        proof {
            assert forall|q1: int, q2: int| 0 <= q1 < q2 < sorted@.len() implies (
            #[trigger] sorted@[q1]).1 != (#[trigger] sorted@[q2]).1 by {
                if sorted@[q1].1 == sorted@[q2].1 {
                    assert(sorted@.contains(sorted@[q1]));
                    assert(sorted@.to_multiset().count(sorted@[q1]) > 0);
                    assert(orig_pairs.to_multiset().count(sorted@[q1]) > 0);
                    assert(orig_pairs.contains(sorted@[q1]));
                    let k1 = choose|k: int|
                        0 <= k < orig_pairs.len() && orig_pairs[k] == sorted@[q1];
                    assert(sorted@[q1].1 as int == k1);
                    assert(sorted@.contains(sorted@[q2]));
                    assert(sorted@.to_multiset().count(sorted@[q2]) > 0);
                    assert(orig_pairs.to_multiset().count(sorted@[q2]) > 0);
                    assert(orig_pairs.contains(sorted@[q2]));
                    let k2 = choose|k: int|
                        0 <= k < orig_pairs.len() && orig_pairs[k] == sorted@[q2];
                    assert(sorted@[q2].1 as int == k2);
                    assert(sorted@[q1] == sorted@[q2]);
                }
            }
        }
        let count = if limit <= n {
            limit
        } else {
            n
        };
        let mut out: Vec<TokenRecord> = Vec::new();
        let mut j: usize = 0;
        while j < count
            invariant
                self.wf(),
                count <= n,
                n == self.tokens@.len(),
                j <= count,
                sorted@.len() == n as int,
                crate::order::sorted_desc(sorted@),
                sorted@.to_multiset() == orig_pairs.to_multiset(),
                orig_pairs.len() == n as int,
                forall|k: int|
                    0 <= k < n ==> (#[trigger] orig_pairs[k]) == (
                    self.tokens.deep_view()[k].created_at_ms as i128,
                    k as usize,
                ),
                out.deep_view().len() == j as int,
                forall|q: int| 0 <= q < j ==> 0 <= (#[trigger] sorted@[q]).1 < n,
                forall|q1: int, q2: int|
                    0 <= q1 < q2 < sorted@.len() ==> (#[trigger] sorted@[q1]).1 != (
                    #[trigger] sorted@[q2]).1,
                forall|q: int|
                    0 <= q < j ==> (#[trigger] out.deep_view()[q]) == self.tokens.deep_view()[
                    sorted@[q].1 as int] && out.deep_view()[q].created_at_ms as i128
                        == sorted@[q].0,
            decreases count - j,
        {
            proof {
                assert(sorted@.contains(sorted@[j as int]));
                assert(sorted@.to_multiset().count(sorted@[j as int]) > 0);
                assert(orig_pairs.to_multiset().count(sorted@[j as int]) > 0);
                assert(orig_pairs.contains(sorted@[j as int]));
                let k = choose|k: int|
                    0 <= k < orig_pairs.len() && orig_pairs[k] == sorted@[j as int];
                assert(orig_pairs[k] == (
                    self.tokens.deep_view()[k].created_at_ms as i128,
                    k as usize,
                ));
                assert(sorted@[j as int].1 as int == k);
            }
            let idx = sorted[j].1;
            proof {
                assert(self.tokens.deep_view()[idx as int] == self.tokens@[idx as int].deep_view());
            }
            let item = clone_token(&self.tokens[idx]);
            let ghost o0 = out.deep_view();
            let ghost iv = item.deep_view();
            out.push(item);
            proof {
                assert(out.deep_view() =~= o0.push(iv));
            }
            j += 1;
        }
        proof {
            assert forall|a: int, b: int| 0 <= a <= b < out.deep_view().len() implies (
            #[trigger] out.deep_view()[a]).created_at_ms >= (#[trigger] out.deep_view()[
                b]).created_at_ms by {
                assert(sorted@[a].0 >= sorted@[b].0);
            }
            assert forall|q: int| 0 <= q < out.deep_view().len() implies token_comes_from(
                self.tokens_view(),
                #[trigger] out.deep_view()[q],
            ) by {
                let k = sorted@[q].1 as int;
                assert(0 <= k < self.tokens_view().len() && out.deep_view()[q]
                    == self.tokens_view()[k]);
            }
            assert forall|j1: int, j2: int| 0 <= j1 < j2 < out.deep_view().len() implies (
            #[trigger] out.deep_view()[j1]).mint != (#[trigger] out.deep_view()[j2]).mint by {
                let k1 = sorted@[j1].1 as int;
                let k2 = sorted@[j2].1 as int;
                assert(k1 != k2);
                assert(self.tokens_view()[k1].key() != self.tokens_view()[k2].key());
            }
            assert forall|k: int|
                0 <= k < self.tokens_view().len() && out.deep_view().len() > 0 && (forall|j: int|
                    0 <= j < out.deep_view().len() ==> (#[trigger] out.deep_view()[j]).mint != (
                    self.tokens_view()[k]).mint) implies (#[trigger] self.tokens_view()[
                k]).created_at_ms <= out.deep_view()[out.deep_view().len() - 1].created_at_ms by {
                assert(orig_pairs[k] == (
                    self.tokens.deep_view()[k].created_at_ms as i128,
                    k as usize,
                ));
                assert(orig_pairs.contains(orig_pairs[k]));
                assert(orig_pairs.to_multiset().count(orig_pairs[k]) > 0);
                assert(sorted@.to_multiset().count(orig_pairs[k]) > 0);
                assert(sorted@.contains(orig_pairs[k]));
                let p = choose|p: int| 0 <= p < sorted@.len() && sorted@[p] == orig_pairs[k];
                if p < out.deep_view().len() {
                    assert(sorted@[p].1 as int == k);
                    assert(out.deep_view()[p].mint == self.tokens_view()[k].mint);
                } else {
                    assert(sorted@[out.deep_view().len() - 1].0 >= sorted@[p].0);
                    assert(out.deep_view()[out.deep_view().len() - 1].created_at_ms as i128
                        == sorted@[out.deep_view().len() - 1].0);
                }
            }
        }
        out
    }

    /// The transaction rows of one mint, newest first by timestamp, at most
    /// `limit` of them.
    /// The transaction rows of one mint, newest first by timestamp, at most
    /// `limit` of them; no row repeats, and every matching row newer than a
    /// returned one is itself returned.
    pub fn get_transactions_for_token(&self, mint: &str, limit: usize) -> (r: Vec<
        TransactionRecord,
    >)
        requires
            self.wf(),
        ensures
            r.deep_view().len() == (if limit <= self.transactions_view().filter(
                |t: TransactionRecordV| t.mint == mint@,
            ).len() {
                limit as int
            } else {
                self.transactions_view().filter(
                    |t: TransactionRecordV| t.mint == mint@,
                ).len() as int
            }),
            forall|a: int, b: int|
                0 <= a <= b < r.deep_view().len() ==> (#[trigger] r.deep_view()[a]).timestamp_ms
                    >= (#[trigger] r.deep_view()[b]).timestamp_ms,
            forall|j: int|
                0 <= j < r.deep_view().len() ==> transaction_comes_from(
                    self.transactions_view(),
                    #[trigger] r.deep_view()[j],
                ) && r.deep_view()[j].mint == mint@,
            forall|j1: int, j2: int|
                0 <= j1 < j2 < r.deep_view().len() ==> (#[trigger] r.deep_view()[j1]).signature
                    != (#[trigger] r.deep_view()[j2]).signature,
            forall|k: int|
                0 <= k < self.transactions_view().len() && (#[trigger] self.transactions_view()[
                    k]).mint == mint@ && r.deep_view().len() > 0 && (forall|j: int|
                    0 <= j < r.deep_view().len() ==> (#[trigger] r.deep_view()[j]).signature != (
                    self.transactions_view()[k]).signature) ==> self.transactions_view()[
                k].timestamp_ms <= r.deep_view()[r.deep_view().len() - 1].timestamp_ms,
    {
        let n = self.transactions.len();
        let mut matching: Vec<TransactionRecord> = Vec::new();
        let mut i: usize = 0;
        while i < n
            invariant
                n == self.transactions@.len(),
                i <= n,
                matching.deep_view() == self.transactions.deep_view().take(i as int).filter(
                    |t: TransactionRecordV| t.mint == mint@,
                ),
            decreases n - i,
        {
            let ghost pre = self.transactions.deep_view().take(i as int);
            proof {
                assert(self.transactions.deep_view()[i as int] == self.transactions@[
                    i as int].deep_view());
            }
            if str_eq(self.transactions[i].mint.as_str(), mint) {
                let item = clone_transaction(&self.transactions[i]);
                let ghost o0 = matching.deep_view();
                let ghost iv = item.deep_view();
                matching.push(item);
                proof {
                    assert(matching.deep_view() =~= o0.push(iv));
                }
            }
            proof {
                reveal(Seq::filter);
                let next = self.transactions.deep_view().take(i + 1);
                assert(next.drop_last() =~= pre);
                assert(next.last() == self.transactions.deep_view()[i as int]);
                assert(matching.deep_view() =~= next.filter(
                    |t: TransactionRecordV| t.mint == mint@,
                ));
            }
            i += 1;
        }
        let ghost matched = matching.deep_view();
        proof {
            assert(self.transactions.deep_view().take(n as int)
                =~= self.transactions.deep_view());
            crate::keyed::lemma_unique_filter(
                self.transactions_view(),
                |t: TransactionRecordV| t.mint == mint@,
            );
            assert forall|q: int| 0 <= q < matched.len() implies transaction_comes_from(
                self.transactions_view(),
                #[trigger] matched[q],
            ) && matched[q].mint == mint@ by {
                crate::keyed::lemma_filter_element_of(
                    self.transactions_view(),
                    |t: TransactionRecordV| t.mint == mint@,
                    matched[q],
                );
                assert(matched.contains(matched[q]));
                self.transactions_view().lemma_filter_pred(
                    |t: TransactionRecordV| t.mint == mint@,
                    q,
                );
            }
        }
        let m = matching.len();
        let mut pairs: Vec<(i128, usize)> = Vec::new();
        let mut p: usize = 0;
        while p < m
            invariant
                m == matching@.len(),
                p <= m,
                pairs@.len() == p as int,
                forall|k: int|
                    0 <= k < p ==> (#[trigger] pairs@[k]) == (
                    matching.deep_view()[k].timestamp_ms as i128,
                    k as usize,
                ),
            decreases m - p,
        {
            proof {
                assert(matching.deep_view()[p as int] == matching@[p as int].deep_view());
            }
            pairs.push((matching[p].timestamp_ms as i128, p));
            p += 1;
        }
        let ghost orig_pairs = pairs@;
        let sorted = sort_pairs_desc(pairs);
        proof {
            assert forall|q1: int, q2: int| 0 <= q1 < q2 < sorted@.len() implies (
            #[trigger] sorted@[q1]).1 != (#[trigger] sorted@[q2]).1 by {
                if sorted@[q1].1 == sorted@[q2].1 {
                    assert(sorted@.contains(sorted@[q1]));
                    assert(sorted@.to_multiset().count(sorted@[q1]) > 0);
                    assert(orig_pairs.to_multiset().count(sorted@[q1]) > 0);
                    assert(orig_pairs.contains(sorted@[q1]));
                    let k1 = choose|k: int|
                        0 <= k < orig_pairs.len() && orig_pairs[k] == sorted@[q1];
                    assert(sorted@[q1].1 as int == k1);
                    assert(sorted@.contains(sorted@[q2]));
                    assert(sorted@.to_multiset().count(sorted@[q2]) > 0);
                    assert(orig_pairs.to_multiset().count(sorted@[q2]) > 0);
                    assert(orig_pairs.contains(sorted@[q2]));
                    let k2 = choose|k: int|
                        0 <= k < orig_pairs.len() && orig_pairs[k] == sorted@[q2];
                    assert(sorted@[q2].1 as int == k2);
                    assert(sorted@[q1] == sorted@[q2]);
                }
            }
        }
        let count = if limit <= m {
            limit
        } else {
            m
        };
        let mut out: Vec<TransactionRecord> = Vec::new();
        let mut j: usize = 0;
        while j < count
            invariant
                count <= m,
                count == (if limit <= m {
                    limit as int
                } else {
                    m as int
                }),
                m == matching@.len(),
                matched == matching.deep_view(),
                unique_keys(matched),
                forall|q: int|
                    0 <= q < matched.len() ==> transaction_comes_from(
                        self.transactions_view(),
                        #[trigger] matched[q],
                    ) && matched[q].mint == mint@,
                j <= count,
                sorted@.len() == m as int,
                crate::order::sorted_desc(sorted@),
                sorted@.to_multiset() == orig_pairs.to_multiset(),
                orig_pairs.len() == m as int,
                forall|k: int|
                    0 <= k < m ==> (#[trigger] orig_pairs[k]) == (
                    matched[k].timestamp_ms as i128,
                    k as usize,
                ),
                forall|q1: int, q2: int|
                    0 <= q1 < q2 < sorted@.len() ==> (#[trigger] sorted@[q1]).1 != (
                    #[trigger] sorted@[q2]).1,
                out.deep_view().len() == j as int,
                forall|q: int| 0 <= q < j ==> 0 <= (#[trigger] sorted@[q]).1 < m,
                forall|q: int|
                    0 <= q < j ==> (#[trigger] out.deep_view()[q]) == matched[sorted@[q].1 as int]
                        && out.deep_view()[q].timestamp_ms as i128 == sorted@[q].0,
            decreases count - j,
        {
            proof {
                assert(sorted@.contains(sorted@[j as int]));
                assert(sorted@.to_multiset().count(sorted@[j as int]) > 0);
                assert(orig_pairs.to_multiset().count(sorted@[j as int]) > 0);
                assert(orig_pairs.contains(sorted@[j as int]));
                let k = choose|k: int|
                    0 <= k < orig_pairs.len() && orig_pairs[k] == sorted@[j as int];
                assert(orig_pairs[k] == (matched[k].timestamp_ms as i128, k as usize));
                assert(sorted@[j as int].1 as int == k);
            }
            let idx = sorted[j].1;
            proof {
                assert(matching.deep_view()[idx as int] == matching@[idx as int].deep_view());
            }
            let item = clone_transaction(&matching[idx]);
            let ghost o0 = out.deep_view();
            let ghost iv = item.deep_view();
            out.push(item);
            proof {
                assert(out.deep_view() =~= o0.push(iv));
            }
            j += 1;
        }
        proof {
            assert forall|a: int, b: int| 0 <= a <= b < out.deep_view().len() implies (
            #[trigger] out.deep_view()[a]).timestamp_ms >= (#[trigger] out.deep_view()[
                b]).timestamp_ms by {
                assert(sorted@[a].0 >= sorted@[b].0);
            }
            assert forall|q: int| 0 <= q < out.deep_view().len() implies transaction_comes_from(
                self.transactions_view(),
                #[trigger] out.deep_view()[q],
            ) && out.deep_view()[q].mint == mint@ by {
                let k = sorted@[q].1 as int;
                assert(out.deep_view()[q] == matched[k]);
            }
            assert forall|j1: int, j2: int| 0 <= j1 < j2 < out.deep_view().len() implies (
            #[trigger] out.deep_view()[j1]).signature != (#[trigger] out.deep_view()[
                j2]).signature by {
                let k1 = sorted@[j1].1 as int;
                let k2 = sorted@[j2].1 as int;
                assert(k1 != k2);
                assert(matched[k1].key() != matched[k2].key());
            }
            assert forall|k: int|
                0 <= k < self.transactions_view().len() && (#[trigger] self.transactions_view()[
                    k]).mint == mint@ && out.deep_view().len() > 0 && (forall|j: int|
                    0 <= j < out.deep_view().len() ==> (#[trigger] out.deep_view()[j]).signature
                        != (self.transactions_view()[k]).signature) implies self
                .transactions_view()[k].timestamp_ms <= out.deep_view()[out.deep_view().len()
                - 1].timestamp_ms by {
                self.transactions_view().lemma_filter_contains(
                    |t: TransactionRecordV| t.mint == mint@,
                    k,
                );
                assert(matched.contains(self.transactions_view()[k]));
                let q = choose|q: int|
                    0 <= q < matched.len() && matched[q] == self.transactions_view()[k];
                assert(orig_pairs[q] == (matched[q].timestamp_ms as i128, q as usize));
                assert(orig_pairs.contains(orig_pairs[q]));
                assert(orig_pairs.to_multiset().count(orig_pairs[q]) > 0);
                assert(sorted@.to_multiset().count(orig_pairs[q]) > 0);
                assert(sorted@.contains(orig_pairs[q]));
                let pp = choose|pp: int| 0 <= pp < sorted@.len() && sorted@[pp] == orig_pairs[q];
                if pp < out.deep_view().len() {
                    assert(sorted@[pp].1 as int == q);
                    assert(out.deep_view()[pp] == matched[q]);
                } else {
                    assert(sorted@[out.deep_view().len() - 1].0 >= sorted@[pp].0);
                    assert(out.deep_view()[out.deep_view().len() - 1].timestamp_ms as i128
                        == sorted@[out.deep_view().len() - 1].0);
                }
            }
        }
        out
    }
}

} // verus!
