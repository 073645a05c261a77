//! The token detector: classifies create events, parses the new token,
//! filters it, records it in a bounded map, and rate-limits its alerts.
//!
//! The detector is a deterministic state machine: every step takes the event
//! time. The surrounding process classifies nothing itself — it fetches the
//! transaction a create-classified event names and hands it here.

use vstd::prelude::*;
use crate::alerts::{Alert, AlertService, TokenAlertInfo, new_token_message, history_after};
use crate::database::{DatabaseService, TokenRecord, TokenRecordV};
use crate::keyed::{Keyed, has_key, idx_of, lemma_idx_of, unique_keys, upsert};
use crate::text::{starts_with_seq, string_list_contains, strip_prefix_str, trim_seq, trim_spaces, str_eq};
use crate::tx::{DecodedTx, first_balance_delta, first_signature, spec_first_delta};
use crate::config::Config;
use crate::counter::bump;

verus! {

/// A token the detector has seen, keyed by mint.
#[derive(Debug)]
pub struct DetectedToken {
    pub mint: String,
    pub name: String,
    pub symbol: String,
    pub creator: String,
    /// Wall-clock creation time as recorded (RFC 3339).
    pub created_at: String,
    pub signature: String,
    /// Lamports of liquidity at detection.
    pub initial_liquidity: u64,
    /// Detection time, epoch milliseconds.
    pub detected_at: i64,
}

/// Spec-level image of a [`DetectedToken`].
#[verifier::ext_equal]
pub struct DetectedTokenV {
    pub mint: Seq<char>,
    pub name: Seq<char>,
    pub symbol: Seq<char>,
    pub creator: Seq<char>,
    pub created_at: Seq<char>,
    pub signature: Seq<char>,
    pub initial_liquidity: u64,
    pub detected_at: i64,
}

impl DeepView for DetectedToken {
    type V = DetectedTokenV;

    open spec fn deep_view(&self) -> DetectedTokenV {
        DetectedTokenV {
            mint: self.mint@,
            name: self.name@,
            symbol: self.symbol@,
            creator: self.creator@,
            created_at: self.created_at@,
            signature: self.signature@,
            initial_liquidity: self.initial_liquidity,
            detected_at: self.detected_at,
        }
    }
}

impl Keyed for DetectedTokenV {
    open spec fn key(&self) -> Seq<char> {
        self.mint
    }
}

/// Copies a detected token field by field.
pub fn clone_detected(t: &DetectedToken) -> (r: DetectedToken)
    ensures
        r.deep_view() == t.deep_view(),
{
    DetectedToken {
        mint: t.mint.clone(),
        name: t.name.clone(),
        symbol: t.symbol.clone(),
        creator: t.creator.clone(),
        created_at: t.created_at.clone(),
        signature: t.signature.clone(),
        initial_liquidity: t.initial_liquidity,
        detected_at: t.detected_at,
    }
}

/// The value of the last log line carrying `prefix`, trimmed, or `default`.
pub open spec fn parsed_field(logs: Seq<Seq<char>>, prefix: Seq<char>, default: Seq<char>) -> Seq<
    char,
>
    decreases logs.len(),
{
    if logs.len() == 0 {
        default
    } else if starts_with_seq(logs.last(), prefix) {
        trim_seq(logs.last().skip(prefix.len() as int))
    } else {
        parsed_field(logs.drop_last(), prefix, default)
    }
}

/// Scans the log lines for `prefix` and returns the last value found.
fn parse_log_field(logs: &Vec<String>, prefix: &str, default: &str) -> (r: String)
    ensures
        r@ == parsed_field(logs.deep_view(), prefix@, default@),
{
    let n = logs.len();
    let mut cur = default.to_owned();
    let mut i: usize = 0;
    while i < n
        invariant
            n == logs@.len(),
            i <= n,
            cur@ == parsed_field(logs.deep_view().take(i as int), prefix@, default@),
        decreases n - i,
    {
        proof {
            assert(logs.deep_view()[i as int] == logs@[i as int]@);
        }
        let ghost pre = logs.deep_view().take(i as int);
        match strip_prefix_str(logs[i].as_str(), prefix) {
            Some(rest) => {
                cur = trim_spaces(rest.as_str());
            },
            None => {},
        }
        proof {
            let next = logs.deep_view().take(i + 1);
            assert(next.drop_last() =~= pre);
            assert(next.last() == logs.deep_view()[i as int]);
        }
        i += 1;
    }
    proof {
        assert(logs.deep_view().take(n as int) =~= logs.deep_view());
    }
    cur
}

/// What a create transaction parses to: the first recorded mint, the fee
/// payer as creator, name and symbol from the logs, the first account's
/// lamport change as initial liquidity. `None` when mint or creator is
/// missing.
pub open spec fn spec_token_of(tx: DecodedTx, now_ms: i64, now_iso: Seq<char>) -> Option<
    DetectedTokenV,
> {
    if tx.post_token_mints.deep_view().len() > 0 && tx.account_keys.deep_view().len() > 0 {
        Some(
            DetectedTokenV {
                mint: tx.post_token_mints.deep_view()[0],
                name: parsed_field(tx.log_messages.deep_view(), "Program log: name: "@, "Unknown"@),
                symbol: parsed_field(tx.log_messages.deep_view(), "Program log: symbol: "@, "UNK"@),
                creator: tx.account_keys.deep_view()[0],
                created_at: now_iso,
                signature: if tx.signatures.deep_view().len() > 0 {
                    tx.signatures.deep_view()[0]
                } else {
                    Seq::<char>::empty()
                },
                initial_liquidity: spec_first_delta(tx.pre_balances@, tx.post_balances@),
                detected_at: now_ms,
            },
        )
    } else {
        None
    }
}

/// Parses a token creation out of a decoded transaction.
pub fn parse_token_creation(tx: &DecodedTx, now_ms: i64, now_iso: String) -> (r: Option<
    DetectedToken,
>)
    ensures
        r.deep_view() == spec_token_of(*tx, now_ms, now_iso@),
{
    if tx.post_token_mints.len() == 0 || tx.account_keys.len() == 0 {
        return None;
    }
    proof {
        assert(tx.post_token_mints.deep_view()[0] == tx.post_token_mints@[0]@);
        assert(tx.account_keys.deep_view()[0] == tx.account_keys@[0]@);
    }
    let name = parse_log_field(&tx.log_messages, "Program log: name: ", "Unknown");
    let symbol = parse_log_field(&tx.log_messages, "Program log: symbol: ", "UNK");
    let initial_liquidity = first_balance_delta(&tx.pre_balances, &tx.post_balances);
    let signature = first_signature(tx);
    Some(
        DetectedToken {
            mint: tx.post_token_mints[0].clone(),
            name,
            symbol,
            creator: tx.account_keys[0].clone(),
            created_at: now_iso,
            signature,
            initial_liquidity,
            detected_at: now_ms,
        },
    )
}

/// Alert filters of the detector.
#[derive(Debug)]
pub struct TokenFilters {
    /// Lamports; alerts only at or above.
    pub min_liquidity_lamports: u64,
    /// Lamports; `None` means no upper bound.
    pub max_liquidity_lamports: Option<u64>,
    pub blacklisted_creators: Vec<String>,
    pub whitelisted_creators: Vec<String>,
    /// 0 means unlimited.
    pub max_alerts_per_minute: u32,
    pub alert_new_tokens: bool,
}

/// Spec-level image of [`TokenFilters`].
#[verifier::ext_equal]
pub struct TokenFiltersV {
    pub min_liquidity_lamports: u64,
    pub max_liquidity_lamports: Option<u64>,
    pub blacklisted_creators: Seq<Seq<char>>,
    pub whitelisted_creators: Seq<Seq<char>>,
    pub max_alerts_per_minute: u32,
    pub alert_new_tokens: bool,
}

impl DeepView for TokenFilters {
    type V = TokenFiltersV;

    open spec fn deep_view(&self) -> TokenFiltersV {
        TokenFiltersV {
            min_liquidity_lamports: self.min_liquidity_lamports,
            max_liquidity_lamports: self.max_liquidity_lamports,
            blacklisted_creators: self.blacklisted_creators.deep_view(),
            whitelisted_creators: self.whitelisted_creators.deep_view(),
            max_alerts_per_minute: self.max_alerts_per_minute,
            alert_new_tokens: self.alert_new_tokens,
        }
    }
}

impl TokenFilters {
    /// The filters a configuration asks for: no upper liquidity bound, empty
    /// lists.
    pub fn from_config(config: &Config) -> (r: TokenFilters)
        ensures
            r.deep_view() == (TokenFiltersV {
                min_liquidity_lamports: config.min_liquidity_lamports,
                max_liquidity_lamports: None,
                blacklisted_creators: Seq::<Seq<char>>::empty(),
                whitelisted_creators: Seq::<Seq<char>>::empty(),
                max_alerts_per_minute: config.max_alerts_per_minute,
                alert_new_tokens: config.alert_new_tokens,
            }),
    {
        let r = TokenFilters {
            min_liquidity_lamports: config.min_liquidity_lamports,
            max_liquidity_lamports: None,
            blacklisted_creators: Vec::new(),
            whitelisted_creators: Vec::new(),
            max_alerts_per_minute: config.max_alerts_per_minute,
            alert_new_tokens: config.alert_new_tokens,
        };
        proof {
            assert(r.blacklisted_creators.deep_view() =~= Seq::<Seq<char>>::empty());
            assert(r.whitelisted_creators.deep_view() =~= Seq::<Seq<char>>::empty());
            assert(r.deep_view() =~= (TokenFiltersV {
                min_liquidity_lamports: config.min_liquidity_lamports,
                max_liquidity_lamports: None,
                blacklisted_creators: Seq::<Seq<char>>::empty(),
                whitelisted_creators: Seq::<Seq<char>>::empty(),
                max_alerts_per_minute: config.max_alerts_per_minute,
                alert_new_tokens: config.alert_new_tokens,
            }));
        }
        r
    }
}

impl Default for TokenFilters {
    /// One SOL minimum, no upper bound, ten alerts a minute, alerts on.
    fn default() -> (r: TokenFilters)
        ensures
            r.deep_view().min_liquidity_lamports == crate::config::LAMPORTS_PER_SOL,
            r.deep_view().max_liquidity_lamports is None,
            r.deep_view().blacklisted_creators.len() == 0,
            r.deep_view().whitelisted_creators.len() == 0,
            r.deep_view().max_alerts_per_minute == 10,
            r.deep_view().alert_new_tokens,
    {
        let r = TokenFilters {
            min_liquidity_lamports: crate::config::LAMPORTS_PER_SOL,
            max_liquidity_lamports: None,
            blacklisted_creators: Vec::new(),
            whitelisted_creators: Vec::new(),
            max_alerts_per_minute: 10,
            alert_new_tokens: true,
        };
        proof {
            assert(r.blacklisted_creators.deep_view() =~= Seq::<Seq<char>>::empty());
            assert(r.whitelisted_creators.deep_view() =~= Seq::<Seq<char>>::empty());
        }
        r
    }
}

/// The creator is blacklisted.
pub open spec fn creator_blacklisted(f: TokenFiltersV, t: DetectedTokenV) -> bool {
    f.blacklisted_creators.contains(t.creator)
}

/// A non-empty whitelist is in force and the creator is not on it.
pub open spec fn creator_not_whitelisted(f: TokenFiltersV, t: DetectedTokenV) -> bool {
    f.whitelisted_creators.len() > 0 && !f.whitelisted_creators.contains(t.creator)
}

/// The liquidity lies within the configured bounds.
pub open spec fn meets_liquidity(f: TokenFiltersV, t: DetectedTokenV) -> bool {
    t.initial_liquidity >= f.min_liquidity_lamports && match f.max_liquidity_lamports {
        Some(mx) => t.initial_liquidity <= mx,
        None => true,
    }
}

/// Detector statistics.
#[derive(Debug, Clone, Copy, PartialEq, Eq, Structural)]
pub struct TokenMonitorStats {
    pub tokens_detected: u64,
    pub alerts_sent: u64,
    pub alerts_skipped: u64,
    pub tokens_tracked: usize,
    pub is_running: bool,
}

/// The sliding-window alert rate limiter: a sorted log of admission times in
/// seconds. An admission is granted when fewer than `max_per_minute` of the
/// last minute's admissions are on record.
pub struct AlertRateLimiter {
    timestamps: Vec<i64>,
    max_per_minute: u32,
    last_now: i64,
    admitted: Ghost<Seq<i64>>,
    purged: Ghost<int>,
}

impl AlertRateLimiter {
    /// Every admission ever granted, in order.
    pub closed spec fn admitted_view(&self) -> Seq<i64> {
        self.admitted@
    }

    /// The admissions still on record (the last minute's, as of the last
    /// check).
    pub closed spec fn retained_view(&self) -> Seq<i64> {
        self.timestamps@
    }

    pub closed spec fn max_spec(&self) -> u32 {
        self.max_per_minute
    }

    /// The last time the limiter was consulted.
    pub closed spec fn last_now_spec(&self) -> i64 {
        self.last_now
    }

    /// The record is a sorted suffix of the admission log; any
    /// `max_per_minute + 1` admissions span more than 60 seconds.
    pub closed spec fn wf(&self) -> bool {
        let h = self.admitted@;
        let p = self.purged@;
        &&& 0 <= p <= h.len()
        &&& self.timestamps@ == h.skip(p)
        &&& forall|i: int, j: int| 0 <= i <= j < h.len() ==> (#[trigger] h[i]) <= (#[trigger] h[j])
        &&& forall|k: int| 0 <= k < h.len() ==> (#[trigger] h[k]) <= self.last_now
        &&& forall|k: int| 0 <= k < p ==> (#[trigger] h[k]) < self.last_now - 60
        &&& (self.max_per_minute > 0 ==> forall|j: int|
            self.max_per_minute <= j < h.len() ==> (#[trigger] h[j - self.max_per_minute]) < h[j]
                - 60)
        &&& self.last_now >= 0
    }

    /// A fresh limiter admitting `max_per_minute` alerts a minute; 0 means
    /// unlimited.
    pub fn new(max_per_minute: u32) -> (r: AlertRateLimiter)
        ensures
            r.wf(),
            r.max_spec() == max_per_minute,
            r.admitted_view() == Seq::<i64>::empty(),
            r.retained_view() == Seq::<i64>::empty(),
            r.last_now_spec() == 0,
    {
        let r = AlertRateLimiter {
            timestamps: Vec::new(),
            max_per_minute,
            last_now: 0,
            admitted: Ghost(Seq::empty()),
            purged: Ghost(0),
        };
        proof {
            assert(r.timestamps@ =~= Seq::<i64>::empty().skip(0));
        }
        r
    }

    /// Asks to send an alert at time `now` (epoch seconds). Admission is
    /// recorded; refusal leaves the log unchanged. With
    /// `max_per_minute == 0` everything is admitted without recording.
    pub fn can_send(&mut self, now: i64) -> (r: bool)
        requires
            old(self).wf(),
            now >= old(self).last_now_spec(),
        ensures
            final(self).wf(),
            final(self).max_spec() == old(self).max_spec(),
            final(self).last_now_spec() == if old(self).max_spec() == 0 {
                old(self).last_now_spec()
            } else {
                now
            },
            old(self).max_spec() == 0 ==> r && final(self).admitted_view() == old(self).admitted_view() && final(self).retained_view() == old(self).retained_view(),
            old(self).max_spec() > 0 ==> {
                &&& r == (old(self).retained_view().filter(|t: i64| t >= now - 60).len() < old(self).max_spec())
                &&& (r ==> final(self).admitted_view() == old(self).admitted_view().push(now)
                    && final(self).retained_view() == old(self).retained_view().filter(
                    |t: i64| t >= now - 60,
                ).push(now))
                &&& (!r ==> final(self).admitted_view() == old(self).admitted_view() && final(self).retained_view() == old(self).retained_view().filter(|t: i64| t >= now - 60))
            },
    {
        if self.max_per_minute == 0 {
            return true;
        }
        let ghost h = self.admitted@;
        let cutoff = now - 60;
        self.last_now = now;
        while self.timestamps.len() > 0 && self.timestamps[0] < cutoff
            invariant
                self.admitted@ == h,
                self.max_per_minute == old(self).max_per_minute,
                self.last_now == now,
                0 <= self.purged@ <= h.len(),
                self.timestamps@ == h.skip(self.purged@),
                forall|i: int, j: int| 0 <= i <= j < h.len() ==> (#[trigger] h[i]) <= (#[trigger] h[j]),
                forall|k: int| 0 <= k < h.len() ==> (#[trigger] h[k]) <= now,
                forall|k: int| 0 <= k < self.purged@ ==> (#[trigger] h[k]) < cutoff,
                self.max_per_minute > 0 ==> forall|j: int|
                    self.max_per_minute <= j < h.len() ==> (#[trigger] h[j
                        - self.max_per_minute]) < h[j] - 60,
                now >= 0,
            decreases self.timestamps@.len(),
        {
            proof {
                assert(self.timestamps@[0] == h.skip(self.purged@)[0]);
                assert(h.skip(self.purged@)[0] == h[self.purged@ + 0]);
            }
            self.timestamps.remove(0);
            proof {
                self.purged@ = self.purged@ + 1;
                assert(self.timestamps@ =~= h.skip(self.purged@));
            }
        }
        proof {
            assert forall|k: int|
                0 <= k < self.purged@ implies (#[trigger] h[k]) < self.last_now - 60 by {}
        }
        let kept = self.timestamps.len();
        proof {
            let p = self.purged@;
            assert forall|k: int| 0 <= k < p implies !((#[trigger] h[k]) >= cutoff) by {}
            if p < h.len() {
                assert(self.timestamps@[0] == h.skip(p)[0]);
                assert(h.skip(p)[0] == h[p + 0]);
                assert(h[p] >= cutoff);
            }
            assert forall|k: int| p <= k < h.len() implies (#[trigger] h[k]) >= cutoff by {
                if p < h.len() {
                    assert(h[p] <= h[k]);
                }
            }
            lemma_filter_cutoff(h, cutoff, p);
            lemma_filter_cutoff_skip(h, cutoff, old(self).purged@, p);
        }
        if kept < self.max_per_minute as usize {
            let ghost p = self.purged@;
            self.timestamps.push(now);
            proof {
                self.admitted@ = h.push(now);
                let h2 = self.admitted@;
                assert(self.timestamps@ =~= h2.skip(p));
                let m = self.max_per_minute as int;
                assert forall|j: int| m <= j < h2.len() implies (#[trigger] h2[j - m]) < h2[j]
                    - 60 by {
                    if j < h2.len() - 1 {
                        assert(h2[j - m] == h[j - m]);
                        assert(h2[j] == h[j]);
                    } else {
                        assert(h.len() - p < m);
                        assert(j - m < p);
                        assert(h2[j - m] == h[j - m]);
                        assert(h[j - m] < cutoff);
                    }
                }
            }
            true
        } else {
            false
        }
    }
}

/// Among sorted times, the ones at or past the cutoff are exactly the suffix
/// that starts at the first such time.
proof fn lemma_filter_cutoff(h: Seq<i64>, cutoff: i64, p: int)
    requires
        0 <= p <= h.len(),
        forall|k: int| 0 <= k < p ==> !((#[trigger] h[k]) >= cutoff),
        forall|k: int| p <= k < h.len() ==> (#[trigger] h[k]) >= cutoff,
    ensures
        h.filter(|t: i64| t >= cutoff) == h.skip(p),
    decreases h.len(),
{
    reveal(Seq::filter);
    if h.len() == 0 {
        assert(h.filter(|t: i64| t >= cutoff) =~= h.skip(p));
    } else if p == h.len() {
        lemma_filter_cutoff(h.drop_last(), cutoff, p - 1);
        assert(h.drop_last().filter(|t: i64| t >= cutoff) =~= h.drop_last().skip(p - 1));
        assert(h.filter(|t: i64| t >= cutoff) =~= h.skip(p));
    } else {
        lemma_filter_cutoff(h.drop_last(), cutoff, p);
        assert(h.drop_last().filter(|t: i64| t >= cutoff) =~= h.drop_last().skip(p));
        assert(h.drop_last().skip(p).push(h.last()) =~= h.skip(p));
        assert(h.filter(|t: i64| t >= cutoff) =~= h.skip(p));
    }
}

/// Filtering a suffix by the cutoff gives the same survivors as filtering
/// from an earlier start, when everything dropped in between fails the test.
proof fn lemma_filter_cutoff_skip(h: Seq<i64>, cutoff: i64, p0: int, p: int)
    requires
        0 <= p0 <= p <= h.len(),
        forall|k: int| 0 <= k < p ==> !((#[trigger] h[k]) >= cutoff),
        forall|k: int| p <= k < h.len() ==> (#[trigger] h[k]) >= cutoff,
    ensures
        h.skip(p0).filter(|t: i64| t >= cutoff) == h.skip(p),
{
    let s = h.skip(p0);
    assert forall|k: int| 0 <= k < p - p0 implies !((#[trigger] s[k]) >= cutoff) by {
        assert(s[k] == h[k + p0]);
    }
    assert forall|k: int| p - p0 <= k < s.len() implies (#[trigger] s[k]) >= cutoff by {
        assert(s[k] == h[k + p0]);
    }
    lemma_filter_cutoff(s, cutoff, p - p0);
    assert(s.skip(p - p0) =~= h.skip(p));
}

/// In any 60-second span the limiter admits at most `max_per_minute` alerts:
/// two admissions `max_per_minute` apart in the log are more than 60 seconds
/// apart.
pub proof fn lemma_rate_limit_window(rl: AlertRateLimiter, j1: int, j2: int)
    requires
        rl.wf(),
        rl.max_spec() > 0,
        0 <= j1 <= j2 < rl.admitted_view().len(),
        rl.admitted_view()[j2] - rl.admitted_view()[j1] <= 60,
    ensures
        j2 - j1 + 1 <= rl.max_spec(),
{
    let h = rl.admitted_view();
    let m = rl.max_spec() as int;
    if j2 - j1 >= m {
        assert(h[j1 + m - m] < h[j1 + m] - 60);
        assert(h[j1 + m] <= h[j2]);
    }
}


/// A detection outcome: the token to announce (if one was recorded) and the
/// alert that was emitted (if one passed the filters and the limiter).
pub struct NewTokenOutcome {
    pub token: Option<DetectedToken>,
    pub alert: Option<Alert>,
}

/// The detector map after recording `t`: append, and evict the oldest entry
/// once the map would exceed 1000.
pub open spec fn after_insert(s: Seq<DetectedTokenV>, t: DetectedTokenV) -> Seq<DetectedTokenV> {
    let grown = s.push(t);
    if grown.len() > 1000 {
        grown.drop_first()
    } else {
        grown
    }
}

/// The stored row a detection produces.
pub open spec fn record_of(t: DetectedTokenV) -> TokenRecordV {
    TokenRecordV {
        mint: t.mint,
        name: t.name,
        symbol: t.symbol,
        creator: t.creator,
        created_at: t.created_at,
        created_at_ms: t.detected_at,
        initial_liquidity: t.initial_liquidity,
        current_liquidity: t.initial_liquidity,
        holder_count: 0,
        is_rugged: false,
        rug_reason: None,
        last_updated: t.created_at,
    }
}

/// The token identity an alert about `t` carries.
pub open spec fn alert_info_of(t: DetectedTokenV) -> crate::alerts::TokenAlertInfoV {
    crate::alerts::TokenAlertInfoV {
        mint: t.mint,
        name: t.name,
        symbol: t.symbol,
        creator: t.creator,
        initial_liquidity: Some(t.initial_liquidity),
    }
}

/// The event is dropped without a trace: nothing parsed, a duplicate mint, a
/// blacklisted creator, or a whitelist in force without the creator.
pub open spec fn detection_rejected(
    detected: Seq<DetectedTokenV>,
    f: TokenFiltersV,
    t: Option<DetectedTokenV>,
) -> bool {
    match t {
        None => true,
        Some(tok) => has_key(detected, tok.mint) || creator_blacklisted(f, tok)
            || creator_not_whitelisted(f, tok),
    }
}

/// The limiter admits an alert at `now_s` seconds.
pub open spec fn would_admit(max: u32, retained: Seq<i64>, now_s: int) -> bool {
    max == 0 || retained.filter(|t: i64| t >= now_s - 60).len() < max
}

/// Detection times never decrease along the map.
pub open spec fn sorted_by_detected(s: Seq<DetectedTokenV>) -> bool {
    forall|i: int, j: int|
        0 <= i <= j < s.len() ==> (#[trigger] s[i]).detected_at <= (#[trigger] s[j]).detected_at
}

/// Detection times strictly increase along the map.
pub open spec fn strictly_by_detected(s: Seq<DetectedTokenV>) -> bool {
    forall|i: int, j: int|
        0 <= i < j < s.len() ==> (#[trigger] s[i]).detected_at < (#[trigger] s[j]).detected_at
}

/// First position of `mint` among the detected tokens.
fn detected_pos(tokens: &Vec<DetectedToken>, mint: &str) -> (r: Option<usize>)
    ensures
        r matches Some(i) ==> i < tokens@.len() && idx_of(tokens.deep_view(), mint@) == i,
        r is None ==> idx_of(tokens.deep_view(), mint@) == -1,
{
    let n = tokens.len();
    let mut i: usize = 0;
    while i < n
        invariant
            n == tokens@.len(),
            i <= n,
            forall|k: int| 0 <= k < i ==> (#[trigger] tokens.deep_view()[k]).mint != mint@,
        decreases n - i,
    {
        proof {
            assert(tokens.deep_view()[i as int] == tokens@[i as int].deep_view());
        }
        if str_eq(tokens[i].mint.as_str(), mint) {
            proof {
                let s = tokens.deep_view();
                lemma_idx_of(s, mint@);
                assert(s[i as int].key() == mint@);
                let x = idx_of(s, mint@);
                if x < i as int {
                    assert(s[x].mint != mint@);
                    assert(s[x].key() == mint@);
                }
                if x > i as int {
                    assert(s[i as int].key() != mint@);
                }
            }
            return Some(i);
        }
        i += 1;
    }
    proof {
        let s = tokens.deep_view();
        lemma_idx_of(s, mint@);
        let x = idx_of(s, mint@);
        if x >= 0 {
            assert(s[x].key() == mint@);
            assert(s[x].mint != mint@);
        }
    }
    None
}

/// The token detector.
pub struct TokenMonitor {
    filters: TokenFilters,
    rate_limiter: AlertRateLimiter,
    detected_tokens: Vec<DetectedToken>,
    tokens_detected: u64,
    alerts_sent: u64,
    alerts_skipped: u64,
    is_running: bool,
    last_event_ms: i64,
}

impl TokenMonitor {
    /// The detected tokens, oldest first.
    pub closed spec fn detected_view(&self) -> Seq<DetectedTokenV> {
        self.detected_tokens.deep_view()
    }

    pub closed spec fn filters_view(&self) -> TokenFiltersV {
        self.filters.deep_view()
    }

    pub closed spec fn limiter_admitted(&self) -> Seq<i64> {
        self.rate_limiter.admitted_view()
    }

    pub closed spec fn limiter_retained(&self) -> Seq<i64> {
        self.rate_limiter.retained_view()
    }

    pub closed spec fn tokens_detected_spec(&self) -> u64 {
        self.tokens_detected
    }

    pub closed spec fn alerts_sent_spec(&self) -> u64 {
        self.alerts_sent
    }

    pub closed spec fn alerts_skipped_spec(&self) -> u64 {
        self.alerts_skipped
    }

    pub closed spec fn running_spec(&self) -> bool {
        self.is_running
    }

    /// The time of the last handled event.
    pub closed spec fn last_event_spec(&self) -> i64 {
        self.last_event_ms
    }

    /// Map keys unique; at most 1000 entries; detection times non-decreasing
    /// and no later than the last event; the limiter consistent and not ahead
    /// of the event clock.
    pub closed spec fn wf(&self) -> bool {
        &&& unique_keys(self.detected_view())
        &&& self.detected_view().len() <= 1000
        &&& sorted_by_detected(self.detected_view())
        &&& forall|k: int|
            0 <= k < self.detected_view().len() ==> (#[trigger] self.detected_view()[k]).detected_at
                <= self.last_event_ms
        &&& self.rate_limiter.wf()
        &&& self.rate_limiter.max_spec() == self.filters.max_alerts_per_minute
        &&& self.rate_limiter.last_now_spec() <= self.last_event_ms / 1000
        &&& self.last_event_ms >= 0
    }

    /// A fresh detector for this configuration.
    pub fn new(config: &Config) -> (r: TokenMonitor)
        ensures
            r.wf(),
            r.detected_view() == Seq::<DetectedTokenV>::empty(),
            r.filters_view() == (TokenFiltersV {
                min_liquidity_lamports: config.min_liquidity_lamports,
                max_liquidity_lamports: None,
                blacklisted_creators: Seq::<Seq<char>>::empty(),
                whitelisted_creators: Seq::<Seq<char>>::empty(),
                max_alerts_per_minute: config.max_alerts_per_minute,
                alert_new_tokens: config.alert_new_tokens,
            }),
            r.limiter_admitted() == Seq::<i64>::empty(),
            r.limiter_retained() == Seq::<i64>::empty(),
            r.tokens_detected_spec() == 0,
            r.alerts_sent_spec() == 0,
            r.alerts_skipped_spec() == 0,
            !r.running_spec(),
            r.last_event_spec() == 0,
    {
        let filters = TokenFilters::from_config(config);
        let rate_limiter = AlertRateLimiter::new(config.max_alerts_per_minute);
        let r = TokenMonitor {
            filters,
            rate_limiter,
            detected_tokens: Vec::new(),
            tokens_detected: 0,
            alerts_sent: 0,
            alerts_skipped: 0,
            is_running: false,
            last_event_ms: 0,
        };
        proof {
            assert(r.detected_tokens.deep_view() =~= Seq::<DetectedTokenV>::empty());
        }
        r
    }

    /// Handles the transaction behind a create-classified event at `now_ms`.
    ///
    /// A parsed, new, unfiltered token is counted, persisted, recorded (with
    /// the oldest entry evicted past 1000) and returned for the new-token
    /// announcement. An alert goes out only when the liquidity bounds are
    /// met, alerts are enabled, and the limiter admits it at `now_ms / 1000`
    /// seconds.
    pub fn handle_new_token(
        &mut self,
        tx: &DecodedTx,
        now_ms: i64,
        now_iso: String,
        db: &mut DatabaseService,
        bus: &mut AlertService,
    ) -> (r: NewTokenOutcome)
        requires
            old(self).wf(),
            old(db).wf(),
            old(bus).wf(),
            now_ms >= old(self).last_event_spec(),
        ensures
            final(self).wf(),
            final(db).wf(),
            final(bus).wf(),
            final(self).last_event_spec() == now_ms,
            final(self).filters_view() == old(self).filters_view(),
            final(self).running_spec() == old(self).running_spec(),
            final(db).transactions_view() == old(db).transactions_view(),
            final(db).wallets_view() == old(db).wallets_view(),
            final(db).alerts_view() == old(db).alerts_view(),
            final(bus).next_id_spec() == old(bus).next_id_spec() + (if r.alert is Some {
                1int
            } else {
                0int
            }),
            detection_rejected(
                old(self).detected_view(),
                old(self).filters_view(),
                spec_token_of(*tx, now_ms, now_iso@),
            ) ==> {
                &&& r.token is None
                &&& r.alert is None
                &&& final(self).detected_view() == old(self).detected_view()
                &&& final(self).tokens_detected_spec() == old(self).tokens_detected_spec()
                &&& final(self).alerts_sent_spec() == old(self).alerts_sent_spec()
                &&& final(self).alerts_skipped_spec() == old(self).alerts_skipped_spec()
                &&& final(self).limiter_admitted() == old(self).limiter_admitted()
                &&& final(self).limiter_retained() == old(self).limiter_retained()
                &&& final(db).tokens_view() == old(db).tokens_view()
                &&& final(bus).history_view() == old(bus).history_view()
            },
            !detection_rejected(
                old(self).detected_view(),
                old(self).filters_view(),
                spec_token_of(*tx, now_ms, now_iso@),
            ) ==> (spec_token_of(*tx, now_ms, now_iso@) matches Some(tok) && {
                &&& r.token matches Some(dt) && dt.deep_view() == tok
                &&& final(self).detected_view() == after_insert(old(self).detected_view(), tok)
                &&& final(self).tokens_detected_spec() == (if old(self).tokens_detected_spec()
                    < u64::MAX {
                    old(self).tokens_detected_spec() + 1
                } else {
                    old(self).tokens_detected_spec() as int
                })
                &&& final(db).tokens_view() == upsert(old(db).tokens_view(), record_of(tok))
                &&& (meets_liquidity(old(self).filters_view(), tok)
                    && old(self).filters_view().alert_new_tokens ==> {
                    let admitted = would_admit(
                        old(self).filters_view().max_alerts_per_minute,
                        old(self).limiter_retained(),
                        now_ms / 1000,
                    );
                    &&& (admitted && old(bus).next_id_spec() < 0x7fff_ffff_ffff_ffff
                        ==> (r.alert matches Some(a) && {
                        &&& a.alert_type@ == "new_token"@
                        &&& a.title@ == "New Token Detected"@
                        &&& a.message@ == new_token_message(alert_info_of(tok))
                        &&& a.data.deep_view() == crate::alerts::AlertDataV::Token(
                            alert_info_of(tok),
                        )
                        &&& a.id == old(bus).next_id_spec()
                        &&& final(bus).history_view() == history_after(
                            old(bus).history_view(),
                            a.deep_view(),
                        )
                    }))
                    &&& (admitted ==> final(self).alerts_sent_spec() == (if old(self)
                        .alerts_sent_spec() < u64::MAX {
                        old(self).alerts_sent_spec() + 1
                    } else {
                        old(self).alerts_sent_spec() as int
                    }))
                    &&& (old(self).filters_view().max_alerts_per_minute == 0 ==> final(self).limiter_admitted() == old(self).limiter_admitted() && final(self).limiter_retained() == old(self).limiter_retained())
                    &&& (admitted && old(self).filters_view().max_alerts_per_minute > 0 ==> final(self).limiter_admitted() == old(self).limiter_admitted().push(
                        (now_ms / 1000) as i64,
                    ) && final(self).limiter_retained() == old(self).limiter_retained().filter(
                        |t: i64| t >= now_ms / 1000 - 60,
                    ).push((now_ms / 1000) as i64))
                    &&& (!admitted ==> final(self).limiter_admitted() == old(self).limiter_admitted() && final(self).limiter_retained() == old(self).limiter_retained().filter(|t: i64| t >= now_ms / 1000 - 60))
                    &&& (!admitted ==> r.alert is None && final(self).alerts_skipped_spec() == (
                    if old(self).alerts_skipped_spec() < u64::MAX {
                        old(self).alerts_skipped_spec() + 1
                    } else {
                        old(self).alerts_skipped_spec() as int
                    }) && final(bus).history_view() == old(bus).history_view())
                })
                &&& (!(meets_liquidity(old(self).filters_view(), tok)
                    && old(self).filters_view().alert_new_tokens) ==> r.alert is None
                    && final(self).alerts_sent_spec() == old(self).alerts_sent_spec()
                    && final(self).alerts_skipped_spec() == old(self).alerts_skipped_spec()
                    && final(self).limiter_admitted() == old(self).limiter_admitted()
                    && final(self).limiter_retained() == old(self).limiter_retained()
                    && final(bus).history_view() == old(bus).history_view())
                &&& (now_ms > old(self).last_event_spec() && strictly_by_detected(
                    old(self).detected_view(),
                ) ==> strictly_by_detected(final(self).detected_view()))
            }),
    {
        proof {
            vstd::arithmetic::div_mod::lemma_div_is_ordered(
                old(self).last_event_ms as int,
                now_ms as int,
                1000,
            );
        }
        self.last_event_ms = now_ms;
        let parsed = parse_token_creation(tx, now_ms, now_iso.clone());
        let token = match parsed {
            Some(t) => t,
            None => {
                return NewTokenOutcome { token: None, alert: None };
            },
        };
        if detected_pos(&self.detected_tokens, token.mint.as_str()).is_some() {
            return NewTokenOutcome { token: None, alert: None };
        }
        if string_list_contains(&self.filters.blacklisted_creators, token.creator.as_str()) {
            return NewTokenOutcome { token: None, alert: None };
        }
        if self.filters.whitelisted_creators.len() > 0 && !string_list_contains(
            &self.filters.whitelisted_creators,
            token.creator.as_str(),
        ) {
            return NewTokenOutcome { token: None, alert: None };
        }
        let meets = token.initial_liquidity >= self.filters.min_liquidity_lamports && (
        match self.filters.max_liquidity_lamports {
            Some(mx) => token.initial_liquidity <= mx,
            None => true,
        });
        self.tokens_detected = bump(self.tokens_detected);
        db.save_token(
            TokenRecord {
                mint: token.mint.clone(),
                name: token.name.clone(),
                symbol: token.symbol.clone(),
                creator: token.creator.clone(),
                created_at: token.created_at.clone(),
                created_at_ms: token.detected_at,
                initial_liquidity: token.initial_liquidity,
                current_liquidity: token.initial_liquidity,
                holder_count: 0,
                is_rugged: false,
                rug_reason: None,
                last_updated: token.created_at.clone(),
            },
            now_iso.clone(),
        );
        proof {
            assert((TokenRecordV {
                last_updated: now_iso@,
                ..TokenRecord {
                    mint: token.mint,
                    name: token.name,
                    symbol: token.symbol,
                    creator: token.creator,
                    created_at: token.created_at,
                    created_at_ms: token.detected_at,
                    initial_liquidity: token.initial_liquidity,
                    current_liquidity: token.initial_liquidity,
                    holder_count: 0,
                    is_rugged: false,
                    rug_reason: None,
                    last_updated: token.created_at,
                }.deep_view()
            }) =~= record_of(token.deep_view()));
        }
        let ghost d0 = self.detected_tokens.deep_view();
        let ghost tv = token.deep_view();
        let stored = clone_detected(&token);
        self.detected_tokens.push(stored);
        proof {
            assert(self.detected_tokens.deep_view() =~= d0.push(tv));
            crate::keyed::lemma_unique_push(d0, tv);
        }
        if self.detected_tokens.len() > 1000 {
            let ghost d1 = self.detected_tokens.deep_view();
            self.detected_tokens.remove(0);
            proof {
                assert(self.detected_tokens.deep_view() =~= d1.remove(0));
                assert(d1.remove(0) =~= d1.drop_first());
                crate::keyed::lemma_unique_remove(d1, 0);
            }
        }
        let mut alert: Option<Alert> = None;
        if meets && self.filters.alert_new_tokens {
            let now_s = now_ms / 1000;
            if self.rate_limiter.can_send(now_s) {
                self.alerts_sent = bump(self.alerts_sent);
                let info = TokenAlertInfo {
                    mint: token.mint.clone(),
                    name: token.name.clone(),
                    symbol: token.symbol.clone(),
                    creator: token.creator.clone(),
                    initial_liquidity: Some(token.initial_liquidity),
                };
                proof {
                    assert(info.deep_view() =~= alert_info_of(tv));
                }
                alert = bus.alert_new_token(&info);
            } else {
                self.alerts_skipped = bump(self.alerts_skipped);
            }
        }
        NewTokenOutcome { token: Some(token), alert }
    }
}


impl TokenMonitor {
    /// Marks the detector running.
    pub fn start(&mut self)
        requires
            old(self).wf(),
        ensures
            final(self).wf(),
            final(self).running_spec(),
            final(self).detected_view() == old(self).detected_view(),
            final(self).filters_view() == old(self).filters_view(),
            final(self).limiter_admitted() == old(self).limiter_admitted(),
            final(self).tokens_detected_spec() == old(self).tokens_detected_spec(),
            final(self).alerts_sent_spec() == old(self).alerts_sent_spec(),
            final(self).alerts_skipped_spec() == old(self).alerts_skipped_spec(),
            final(self).last_event_spec() == old(self).last_event_spec(),
    {
        self.is_running = true;
    }

    /// Marks the detector stopped.
    pub fn stop(&mut self)
        requires
            old(self).wf(),
        ensures
            final(self).wf(),
            !final(self).running_spec(),
            final(self).detected_view() == old(self).detected_view(),
            final(self).filters_view() == old(self).filters_view(),
            final(self).limiter_admitted() == old(self).limiter_admitted(),
            final(self).tokens_detected_spec() == old(self).tokens_detected_spec(),
            final(self).alerts_sent_spec() == old(self).alerts_sent_spec(),
            final(self).alerts_skipped_spec() == old(self).alerts_skipped_spec(),
            final(self).last_event_spec() == old(self).last_event_spec(),
    {
        self.is_running = false;
    }

    pub fn is_running(&self) -> (r: bool)
        ensures
            r == self.running_spec(),
    {
        self.is_running
    }

    /// The time of the last handled event, for callers that must hand in a
    /// non-decreasing clock.
    pub fn last_event(&self) -> (r: i64)
        ensures
            r == self.last_event_spec(),
    {
        self.last_event_ms
    }

    /// Sets a liquidity bound, in lamports; other keys are ignored.
    pub fn set_filter(&mut self, key: &str, value: u64)
        requires
            old(self).wf(),
        ensures
            final(self).wf(),
            key@ == "min_liquidity_sol"@ ==> final(self).filters_view() == (TokenFiltersV {
                min_liquidity_lamports: value,
                ..old(self).filters_view()
            }),
            key@ == "max_liquidity_sol"@ ==> final(self).filters_view() == (TokenFiltersV {
                max_liquidity_lamports: Some(value),
                ..old(self).filters_view()
            }),
            key@ != "min_liquidity_sol"@ && key@ != "max_liquidity_sol"@ ==> final(self).filters_view() == old(self).filters_view(),
            final(self).detected_view() == old(self).detected_view(),
            final(self).limiter_admitted() == old(self).limiter_admitted(),
    {
        proof {
            reveal_strlit("min_liquidity_sol");
            reveal_strlit("max_liquidity_sol");
            assert("min_liquidity_sol"@[1] != "max_liquidity_sol"@[1]);
        }
        if str_eq(key, "min_liquidity_sol") {
            self.filters.min_liquidity_lamports = value;
        } else if str_eq(key, "max_liquidity_sol") {
            self.filters.max_liquidity_lamports = Some(value);
        }
    }

    /// Blacklists a creator address (idempotent).
    pub fn blacklist_creator(&mut self, address: &str)
        requires
            old(self).wf(),
        ensures
            final(self).wf(),
            final(self).filters_view().blacklisted_creators.contains(address@),
            old(self).filters_view().blacklisted_creators.contains(address@) ==> final(self).filters_view() == old(self).filters_view(),
            !old(self).filters_view().blacklisted_creators.contains(address@) ==> final(self).filters_view() == (TokenFiltersV {
                blacklisted_creators: old(self).filters_view().blacklisted_creators.push(address@),
                ..old(self).filters_view()
            }),
            final(self).detected_view() == old(self).detected_view(),
    {
        if !string_list_contains(&self.filters.blacklisted_creators, address) {
            let ghost b0 = self.filters.blacklisted_creators.deep_view();
            self.filters.blacklisted_creators.push(address.to_owned());
            proof {
                assert(self.filters.blacklisted_creators.deep_view() =~= b0.push(address@));
                assert(self.filters.blacklisted_creators.deep_view().last() == address@);
            }
        }
    }

    /// Whitelists a creator address (idempotent).
    pub fn whitelist_creator(&mut self, address: &str)
        requires
            old(self).wf(),
        ensures
            final(self).wf(),
            final(self).filters_view().whitelisted_creators.contains(address@),
            old(self).filters_view().whitelisted_creators.contains(address@) ==> final(self).filters_view() == old(self).filters_view(),
            !old(self).filters_view().whitelisted_creators.contains(address@) ==> final(self).filters_view() == (TokenFiltersV {
                whitelisted_creators: old(self).filters_view().whitelisted_creators.push(address@),
                ..old(self).filters_view()
            }),
            final(self).detected_view() == old(self).detected_view(),
    {
        if !string_list_contains(&self.filters.whitelisted_creators, address) {
            let ghost w0 = self.filters.whitelisted_creators.deep_view();
            self.filters.whitelisted_creators.push(address.to_owned());
            proof {
                assert(self.filters.whitelisted_creators.deep_view() =~= w0.push(address@));
                assert(self.filters.whitelisted_creators.deep_view().last() == address@);
            }
        }
    }

    /// The detector's counters and map size.
    pub fn get_stats(&self) -> (r: TokenMonitorStats)
        ensures
            r.tokens_detected == self.tokens_detected_spec(),
            r.alerts_sent == self.alerts_sent_spec(),
            r.alerts_skipped == self.alerts_skipped_spec(),
            r.tokens_tracked == self.detected_view().len(),
            r.is_running == self.running_spec(),
    {
        TokenMonitorStats {
            tokens_detected: self.tokens_detected,
            alerts_sent: self.alerts_sent,
            alerts_skipped: self.alerts_skipped,
            tokens_tracked: self.detected_tokens.len(),
            is_running: self.is_running,
        }
    }

    /// The most recently detected tokens, newest first.
    pub fn get_recent_tokens(&self, limit: usize) -> (r: Vec<DetectedToken>)
        ensures
            r.deep_view().len() == if limit <= self.detected_view().len() {
                limit as int
            } else {
                self.detected_view().len() as int
            },
            forall|j: int|
                0 <= j < r.deep_view().len() ==> (#[trigger] r.deep_view()[j])
                    == self.detected_view()[self.detected_view().len() - 1 - j],
    {
        let n = self.detected_tokens.len();
        let count = if limit <= n {
            limit
        } else {
            n
        };
        let mut out: Vec<DetectedToken> = Vec::new();
        let mut j: usize = 0;
        while j < count
            invariant
                n == self.detected_tokens@.len(),
                count <= n,
                j <= count,
                out.deep_view().len() == j as int,
                forall|k: int|
                    0 <= k < j ==> (#[trigger] out.deep_view()[k])
                        == self.detected_tokens.deep_view()[n - 1 - k],
            decreases count - j,
        {
            proof {
                assert(self.detected_tokens.deep_view()[n - 1 - j as int] == self.detected_tokens@[
                    n - 1 - j as int].deep_view());
            }
            let item = clone_detected(&self.detected_tokens[n - 1 - j]);
            let ghost o0 = out.deep_view();
            let ghost iv = item.deep_view();
            out.push(item);
            proof {
                assert(out.deep_view() =~= o0.push(iv));
            }
            j += 1;
        }
        out
    }

    /// The detected token under `mint`, if any.
    pub fn get_token(&self, mint: &str) -> (r: Option<&DetectedToken>)
        ensures
            r is Some <==> has_key(self.detected_view(), mint@),
            r matches Some(t) ==> t.deep_view() == self.detected_view()[idx_of(
                self.detected_view(),
                mint@,
            )],
    {
        match detected_pos(&self.detected_tokens, mint) {
            Some(i) => Some(&self.detected_tokens[i]),
            None => None,
        }
    }
}

/// The token map never exceeds 1000 entries.
pub proof fn lemma_token_map_bounded(m: TokenMonitor)
    requires
        m.wf(),
    ensures
        m.detected_view().len() <= 1000,
{
}

/// Detection times never decrease along the map, and no recorded time is
/// ahead of the last handled event.
pub proof fn lemma_detected_monotone(m: TokenMonitor)
    requires
        m.wf(),
    ensures
        sorted_by_detected(m.detected_view()),
        forall|k: int|
            0 <= k < m.detected_view().len() ==> (#[trigger] m.detected_view()[k]).detected_at
                <= m.last_event_spec(),
{
}

/// Under a strictly monotonic event clock the detection times are unique:
/// strict ordering makes any two entries differ.
pub proof fn lemma_detected_unique_when_strict(m: TokenMonitor)
    requires
        m.wf(),
        strictly_by_detected(m.detected_view()),
    ensures
        forall|i: int, j: int|
            0 <= i < j < m.detected_view().len() ==> (#[trigger] m.detected_view()[i]).detected_at
                != (#[trigger] m.detected_view()[j]).detected_at,
{
}

} // verus!
