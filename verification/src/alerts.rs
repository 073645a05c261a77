//! The alert bus: typed alerts with monotonic ids and a bounded history.
//!
//! Producers build alerts here; the surrounding process broadcasts each
//! returned alert to its subscribers and, when a chat webhook is configured,
//! posts the title and message there. Rate limiting is the producer's
//! business, not the bus's.

use vstd::prelude::*;
use crate::text::{fixed2_seq, format_sol2, sol2_seq, str_eq, u64_to_dec, dec_digits};

verus! {

/// Token identity carried inside an alert.
#[derive(Debug)]
pub struct TokenAlertInfo {
    pub mint: String,
    pub name: String,
    pub symbol: String,
    pub creator: String,
    /// Lamports; `None` when unknown.
    pub initial_liquidity: Option<u64>,
}

/// Spec-level image of a [`TokenAlertInfo`].
#[verifier::ext_equal]
pub struct TokenAlertInfoV {
    pub mint: Seq<char>,
    pub name: Seq<char>,
    pub symbol: Seq<char>,
    pub creator: Seq<char>,
    pub initial_liquidity: Option<u64>,
}

impl DeepView for TokenAlertInfo {
    type V = TokenAlertInfoV;

    open spec fn deep_view(&self) -> TokenAlertInfoV {
        TokenAlertInfoV {
            mint: self.mint@,
            name: self.name@,
            symbol: self.symbol@,
            creator: self.creator@,
            initial_liquidity: self.initial_liquidity,
        }
    }
}

/// Copies the token identity field by field.
pub fn clone_token_info(t: &TokenAlertInfo) -> (r: TokenAlertInfo)
    ensures
        r.deep_view() == t.deep_view(),
{
    TokenAlertInfo {
        mint: t.mint.clone(),
        name: t.name.clone(),
        symbol: t.symbol.clone(),
        creator: t.creator.clone(),
        initial_liquidity: t.initial_liquidity,
    }
}

/// The structured payload of an alert.
#[derive(Debug)]
pub enum AlertData {
    /// A detected token.
    Token(TokenAlertInfo),
    /// A rug verdict with its reason and severity.
    RugPull { token: TokenAlertInfo, reason: String, severity: String },
    /// A whale movement.
    Whale {
        wallet: String,
        token: TokenAlertInfo,
        amount_lamports: u64,
        amount_tokens: u64,
        tx_type: String,
    },
    /// Suspicious activity on a token.
    Suspicious { token: TokenAlertInfo, reason: String },
    /// No payload.
    Empty,
}

/// Spec-level image of [`AlertData`].
#[verifier::ext_equal]
pub enum AlertDataV {
    Token(TokenAlertInfoV),
    RugPull { token: TokenAlertInfoV, reason: Seq<char>, severity: Seq<char> },
    Whale {
        wallet: Seq<char>,
        token: TokenAlertInfoV,
        amount_lamports: u64,
        amount_tokens: u64,
        tx_type: Seq<char>,
    },
    Suspicious { token: TokenAlertInfoV, reason: Seq<char> },
    Empty,
}

impl DeepView for AlertData {
    type V = AlertDataV;

    open spec fn deep_view(&self) -> AlertDataV {
        match self {
            AlertData::Token(t) => AlertDataV::Token(t.deep_view()),
            AlertData::RugPull { token, reason, severity } => AlertDataV::RugPull {
                token: token.deep_view(),
                reason: reason@,
                severity: severity@,
            },
            AlertData::Whale { wallet, token, amount_lamports, amount_tokens, tx_type } => (
            AlertDataV::Whale {
                wallet: wallet@,
                token: token.deep_view(),
                amount_lamports: *amount_lamports,
                amount_tokens: *amount_tokens,
                tx_type: tx_type@,
            }),
            AlertData::Suspicious { token, reason } => AlertDataV::Suspicious {
                token: token.deep_view(),
                reason: reason@,
            },
            AlertData::Empty => AlertDataV::Empty,
        }
    }
}

/// Copies a payload field by field.
fn clone_data(d: &AlertData) -> (r: AlertData)
    ensures
        r.deep_view() == d.deep_view(),
{
    match d {
        AlertData::Token(t) => AlertData::Token(clone_token_info(t)),
        AlertData::RugPull { token, reason, severity } => AlertData::RugPull {
            token: clone_token_info(token),
            reason: reason.clone(),
            severity: severity.clone(),
        },
        AlertData::Whale { wallet, token, amount_lamports, amount_tokens, tx_type } => (
        AlertData::Whale {
            wallet: wallet.clone(),
            token: clone_token_info(token),
            amount_lamports: *amount_lamports,
            amount_tokens: *amount_tokens,
            tx_type: tx_type.clone(),
        }),
        AlertData::Suspicious { token, reason } => AlertData::Suspicious {
            token: clone_token_info(token),
            reason: reason.clone(),
        },
        AlertData::Empty => AlertData::Empty,
    }
}

/// One alert: id, kind, human-readable text, payload, timestamp.
#[derive(Debug)]
pub struct Alert {
    pub id: i64,
    pub alert_type: String,
    pub title: String,
    pub message: String,
    pub data: AlertData,
    pub timestamp: String,
}

/// Spec-level image of an [`Alert`].
#[verifier::ext_equal]
pub struct AlertV {
    pub id: i64,
    pub alert_type: Seq<char>,
    pub title: Seq<char>,
    pub message: Seq<char>,
    pub data: AlertDataV,
    pub timestamp: Seq<char>,
}

impl DeepView for Alert {
    type V = AlertV;

    open spec fn deep_view(&self) -> AlertV {
        AlertV {
            id: self.id,
            alert_type: self.alert_type@,
            title: self.title@,
            message: self.message@,
            data: self.data.deep_view(),
            timestamp: self.timestamp@,
        }
    }
}

/// Copies an alert field by field.
pub fn clone_alert(a: &Alert) -> (r: Alert)
    ensures
        r.deep_view() == a.deep_view(),
{
    Alert {
        id: a.id,
        alert_type: a.alert_type.clone(),
        title: a.title.clone(),
        message: a.message.clone(),
        data: clone_data(&a.data),
        timestamp: a.timestamp.clone(),
    }
}

/// What the bounded history looks like after inserting `a` at the front: the
/// soft cap is 1000; above it, the history is cut back to 500.
pub open spec fn history_after(old_history: Seq<AlertV>, a: AlertV) -> Seq<AlertV> {
    let pushed = seq![a] + old_history;
    if pushed.len() > 1000 {
        pushed.take(500)
    } else {
        pushed
    }
}

/// The history after a whole run of alerts, first sent first.
pub open spec fn history_after_all(h: Seq<AlertV>, sent: Seq<AlertV>) -> Seq<AlertV>
    decreases sent.len(),
{
    if sent.len() == 0 {
        h
    } else {
        history_after_all(history_after(h, sent[0]), sent.drop_first())
    }
}

/// Sending one more alert extends the run.
pub proof fn lemma_history_after_all_push(h: Seq<AlertV>, sent: Seq<AlertV>, a: AlertV)
    ensures
        history_after_all(h, sent.push(a)) == history_after(history_after_all(h, sent), a),
    decreases sent.len(),
{
    assert(history_after_all(h, sent.push(a)) == history_after_all(
        history_after(h, sent.push(a)[0]),
        sent.push(a).drop_first(),
    ));
    if sent.len() == 0 {
        assert(sent.push(a).drop_first() =~= Seq::<AlertV>::empty());
        assert(sent.push(a)[0] == a);
        assert(history_after_all(history_after(h, a), Seq::<AlertV>::empty()) == history_after(
            h,
            a,
        ));
    } else {
        assert(sent.push(a)[0] == sent[0]);
        assert(sent.push(a).drop_first() =~= sent.drop_first().push(a));
        lemma_history_after_all_push(history_after(h, sent[0]), sent.drop_first(), a);
        assert(history_after_all(h, sent) == history_after_all(
            history_after(h, sent[0]),
            sent.drop_first(),
        ));
    }
}

/// Two runs in sequence fold like one.
pub proof fn lemma_history_after_all_append(h: Seq<AlertV>, s1: Seq<AlertV>, s2: Seq<AlertV>)
    ensures
        history_after_all(h, s1 + s2) == history_after_all(history_after_all(h, s1), s2),
    decreases s2.len(),
{
    if s2.len() == 0 {
        assert(s1 + s2 =~= s1);
    } else {
        let s2o = s2.drop_last();
        let a = s2.last();
        assert(s2o.push(a) =~= s2);
        assert(s1 + s2 =~= (s1 + s2o).push(a));
        lemma_history_after_all_push(h, s1 + s2o, a);
        lemma_history_after_all_append(h, s1, s2o);
        lemma_history_after_all_push(history_after_all(h, s1), s2o, a);
    }
}

/// The alert bus.
#[derive(Debug)]
pub struct AlertService {
    history: Vec<Alert>,
    next_id: i64,
}

impl AlertService {
    /// Newest first.
    pub closed spec fn history_view(&self) -> Seq<AlertV> {
        self.history.deep_view()
    }

    /// The id the next alert will get.
    pub closed spec fn next_id_spec(&self) -> i64 {
        self.next_id
    }

    /// Ids start at 1, grow strictly towards `next_id`, and the history is
    /// newest-first and bounded.
    pub closed spec fn wf(&self) -> bool {
        &&& 1 <= self.next_id
        &&& forall|i: int|
            0 <= i < self.history_view().len() ==> 1 <= (#[trigger] self.history_view()[i]).id
                < self.next_id
        &&& forall|i: int, j: int|
            0 <= i < j < self.history_view().len() ==> (#[trigger] self.history_view()[i].id) > (
            #[trigger] self.history_view()[j].id)
        &&& self.history_view().len() <= 1000
    }

    /// An empty bus; ids will start at 1.
    pub fn new() -> (r: AlertService)
        ensures
            r.wf(),
            r.history_view() == Seq::<AlertV>::empty(),
            r.next_id_spec() == 1,
    {
        let r = AlertService { history: Vec::new(), next_id: 1 };
        proof {
            assert(r.history.deep_view() =~= Seq::<AlertV>::empty());
        }
        r
    }

    /// Builds, records and returns the next alert. The id is the current
    /// `next_id`; the history gains the alert at the front and is cut back to
    /// 500 when it would pass 1000. At the id ceiling the bus stops
    /// accepting alerts; that takes more alerts than the process can see.
    pub fn send_alert(
        &mut self,
        alert_type: &str,
        title: &str,
        message: &str,
        data: AlertData,
    ) -> (r: Option<Alert>)
        requires
            old(self).wf(),
        ensures
            final(self).wf(),
            old(self).next_id_spec() < 0x7fff_ffff_ffff_ffff ==> r is Some,
            old(self).next_id_spec() == 0x7fff_ffff_ffff_ffff ==> r is None && *final(self)
                == *old(self),
            r matches Some(a) ==> {
                &&& a.id == old(self).next_id_spec()
                &&& a.alert_type@ == alert_type@
                &&& a.title@ == title@
                &&& a.message@ == message@
                &&& a.data.deep_view() == data.deep_view()
                &&& final(self).next_id_spec() == old(self).next_id_spec() + 1
                &&& final(self).history_view() == history_after(
                    old(self).history_view(),
                    a.deep_view(),
                )
            },
    {
        if self.next_id == 0x7fff_ffff_ffff_ffff {
            return None;
        }
        let id = self.next_id;
        self.next_id = self.next_id + 1;
        let timestamp = crate::clock::now_rfc3339();
        let alert = Alert {
            id,
            alert_type: alert_type.to_owned(),
            title: title.to_owned(),
            message: message.to_owned(),
            data,
            timestamp,
        };
        let stored = clone_alert(&alert);
        let ghost h0 = self.history.deep_view();
        let ghost av = alert.deep_view();
        self.history.insert(0, stored);
        proof {
            assert(self.history.deep_view() =~= seq![av] + h0);
        }
        if self.history.len() > 1000 {
            self.history.truncate(500);
            proof {
                assert(self.history.deep_view() =~= (seq![av] + h0).take(500));
            }
        }
        proof {
            let h1 = self.history.deep_view();
            assert forall|i: int, j: int| 0 <= i < j < h1.len() implies (#[trigger] h1[i].id) > (
            #[trigger] h1[j].id) by {
                assert(h1[j] == h0[j - 1]);
                if i > 0 {
                    assert(h1[i] == h0[i - 1]);
                }
            }
            assert forall|i: int| 0 <= i < h1.len() implies 1 <= (#[trigger] h1[i]).id
                < self.next_id by {
                if i > 0 {
                    assert(h1[i] == h0[i - 1]);
                }
            }
        }
        Some(alert)
    }

    /// The most recent alerts, newest first.
    pub fn get_recent_alerts(&self, limit: usize) -> (r: Vec<Alert>)
        ensures
            r.deep_view() == self.history_view().take(
                if limit <= self.history_view().len() {
                    limit as int
                } else {
                    self.history_view().len() as int
                },
            ),
    {
        let n = self.history.len();
        let count = if limit <= n {
            limit
        } else {
            n
        };
        let mut out: Vec<Alert> = Vec::new();
        let mut i: usize = 0;
        while i < count
            invariant
                n == self.history@.len(),
                count <= n,
                i <= count,
                out.deep_view() =~= self.history.deep_view().take(i as int),
            decreases count - i,
        {
            proof {
                assert(self.history.deep_view()[i as int] == self.history@[i as int].deep_view());
            }
            let item = clone_alert(&self.history[i]);
            let ghost o0 = out.deep_view();
            let ghost iv = item.deep_view();
            out.push(item);
            proof {
                assert(out.deep_view() =~= o0.push(iv));
                assert(out.deep_view() =~= self.history.deep_view().take(i + 1));
            }
            i += 1;
        }
        out
    }
}

/// Alert ids are unique: in any well-formed history they strictly decrease
/// from the front, so no two entries share an id, and every id is below the
/// one the next alert will take.
pub proof fn lemma_alert_ids_unique(bus: AlertService)
    requires
        bus.wf(),
    ensures
        forall|i: int, j: int|
            0 <= i < j < bus.history_view().len() ==> (#[trigger] bus.history_view()[i].id) != (
            #[trigger] bus.history_view()[j].id),
        forall|i: int|
            0 <= i < bus.history_view().len() ==> (#[trigger] bus.history_view()[i]).id
                < bus.next_id_spec(),
{
}

/// The emoji shown for each alert kind.
pub open spec fn spec_emoji(t: Seq<char>) -> Seq<char> {
    if t == "rug"@ {
        "\u{1F6A8}"@
    } else if t == "whale_buy"@ {
        "\u{1F40B}\u{1F4C8}"@
    } else if t == "whale_sell"@ {
        "\u{1F40B}\u{1F4C9}"@
    } else if t == "new_token"@ {
        "\u{1F195}"@
    } else if t == "suspicious"@ {
        "\u{26A0}\u{FE0F}"@
    } else if t == "success"@ {
        "\u{2705}"@
    } else if t == "error"@ {
        "\u{274C}"@
    } else {
        "\u{1F4E2}"@
    }
}

/// Picks the emoji for an alert kind, for the chat message.
pub fn get_emoji(alert_type: &str) -> (r: &'static str)
    ensures
        r@ == spec_emoji(alert_type@),
{
    if str_eq(alert_type, "rug") {
        "\u{1F6A8}"
    } else if str_eq(alert_type, "whale_buy") {
        "\u{1F40B}\u{1F4C8}"
    } else if str_eq(alert_type, "whale_sell") {
        "\u{1F40B}\u{1F4C9}"
    } else if str_eq(alert_type, "new_token") {
        "\u{1F195}"
    } else if str_eq(alert_type, "suspicious") {
        "\u{26A0}\u{FE0F}"
    } else if str_eq(alert_type, "success") {
        "\u{2705}"
    } else if str_eq(alert_type, "error") {
        "\u{274C}"
    } else {
        "\u{1F4E2}"
    }
}


/// The liquidity line of a new-token message.
pub open spec fn liquidity_text(l: Option<u64>) -> Seq<char> {
    match l {
        Some(v) => sol2_seq(v as nat) + " SOL"@,
        None => "Unknown"@,
    }
}

/// The message of a new-token alert.
pub open spec fn new_token_message(t: TokenAlertInfoV) -> Seq<char> {
    "Token: "@ + t.name + " ("@ + t.symbol + ")\nMint: `"@ + t.mint + "`\nCreator: `"@ + t.creator
        + "`\nLiquidity: "@ + liquidity_text(t.initial_liquidity)
}

/// The message of a rug-pull or suspicious alert.
pub open spec fn token_reason_message(t: TokenAlertInfoV, reason: Seq<char>) -> Seq<char> {
    "Token: "@ + t.symbol + "\nMint: `"@ + t.mint + "`\nReason: "@ + reason
}

/// The message of a whale alert.
pub open spec fn whale_message(
    wallet: Seq<char>,
    t: TokenAlertInfoV,
    amount_lamports: u64,
    amount_tokens: u64,
) -> Seq<char> {
    "Wallet: `"@ + wallet + "`\nToken: "@ + t.symbol + "\nAmount: "@ + sol2_seq(
        amount_lamports as nat,
    ) + " SOL ("@ + dec_digits(amount_tokens as nat) + " tokens)"@
}

/// The known severities, upper-cased for the rug-pull title.
pub open spec fn severity_label(s: Seq<char>) -> Seq<char> {
    if s == "critical"@ {
        "CRITICAL"@
    } else if s == "high"@ {
        "HIGH"@
    } else if s == "medium"@ {
        "MEDIUM"@
    } else if s == "low"@ {
        "LOW"@
    } else {
        s
    }
}

fn severity_label_exec(s: &str) -> (r: String)
    ensures
        r@ == severity_label(s@),
{
    if str_eq(s, "critical") {
        String::from_str("CRITICAL")
    } else if str_eq(s, "high") {
        String::from_str("HIGH")
    } else if str_eq(s, "medium") {
        String::from_str("MEDIUM")
    } else if str_eq(s, "low") {
        String::from_str("LOW")
    } else {
        s.to_owned()
    }
}

impl AlertService {
    /// A new-token alert, built from the token identity.
    pub fn alert_new_token(&mut self, token: &TokenAlertInfo) -> (r: Option<Alert>)
        requires
            old(self).wf(),
        ensures
            final(self).wf(),
            old(self).next_id_spec() < 0x7fff_ffff_ffff_ffff ==> r is Some,
            old(self).next_id_spec() == 0x7fff_ffff_ffff_ffff ==> r is None && *final(self)
                == *old(self),
            r matches Some(a) ==> {
                &&& a.id == old(self).next_id_spec()
                &&& a.alert_type@ == "new_token"@
                &&& a.title@ == "New Token Detected"@
                &&& a.message@ == new_token_message(token.deep_view())
                &&& a.data.deep_view() == AlertDataV::Token(token.deep_view())
                &&& final(self).next_id_spec() == old(self).next_id_spec() + 1
                &&& final(self).history_view() == history_after(
                    old(self).history_view(),
                    a.deep_view(),
                )
            },
    {
        let mut m = String::from_str("Token: ");
        m.append(token.name.as_str());
        m.append(" (");
        m.append(token.symbol.as_str());
        m.append(")\nMint: `");
        m.append(token.mint.as_str());
        m.append("`\nCreator: `");
        m.append(token.creator.as_str());
        m.append("`\nLiquidity: ");
        match token.initial_liquidity {
            Some(l) => {
                let sol = format_sol2(l);
                m.append(sol.as_str());
                m.append(" SOL");
            },
            None => {
                m.append("Unknown");
            },
        }
        proof {
            assert(m@ =~= new_token_message(token.deep_view()));
        }
        self.send_alert(
            "new_token",
            "New Token Detected",
            m.as_str(),
            AlertData::Token(clone_token_info(token)),
        )
    }

    /// A rug-pull alert with reason and severity.
    pub fn alert_rug_pull(
        &mut self,
        token: &TokenAlertInfo,
        reason: &str,
        severity: &str,
    ) -> (r: Option<Alert>)
        requires
            old(self).wf(),
        ensures
            final(self).wf(),
            old(self).next_id_spec() < 0x7fff_ffff_ffff_ffff ==> r is Some,
            old(self).next_id_spec() == 0x7fff_ffff_ffff_ffff ==> r is None && *final(self)
                == *old(self),
            r matches Some(a) ==> {
                &&& a.id == old(self).next_id_spec()
                &&& a.alert_type@ == "rug"@
                &&& a.title@ == "RUG PULL DETECTED - "@ + severity_label(severity@)
                &&& a.message@ == token_reason_message(token.deep_view(), reason@)
                &&& a.data.deep_view() == (AlertDataV::RugPull {
                    token: token.deep_view(),
                    reason: reason@,
                    severity: severity@,
                })
                &&& final(self).next_id_spec() == old(self).next_id_spec() + 1
                &&& final(self).history_view() == history_after(
                    old(self).history_view(),
                    a.deep_view(),
                )
            },
    {
        let mut m = String::from_str("Token: ");
        m.append(token.symbol.as_str());
        m.append("\nMint: `");
        m.append(token.mint.as_str());
        m.append("`\nReason: ");
        m.append(reason);
        proof {
            assert(m@ =~= token_reason_message(token.deep_view(), reason@));
        }
        let mut t = String::from_str("RUG PULL DETECTED - ");
        let label = severity_label_exec(severity);
        t.append(label.as_str());
        self.send_alert(
            "rug",
            t.as_str(),
            m.as_str(),
            AlertData::RugPull {
                token: clone_token_info(token),
                reason: reason.to_owned(),
                severity: severity.to_owned(),
            },
        )
    }

    /// A whale buy or sell alert.
    pub fn alert_whale(
        &mut self,
        tx_type: &str,
        wallet: &str,
        token: &TokenAlertInfo,
        amount_lamports: u64,
        amount_tokens: u64,
    ) -> (r: Option<Alert>)
        requires
            old(self).wf(),
        ensures
            final(self).wf(),
            old(self).next_id_spec() < 0x7fff_ffff_ffff_ffff ==> r is Some,
            old(self).next_id_spec() == 0x7fff_ffff_ffff_ffff ==> r is None && *final(self)
                == *old(self),
            r matches Some(a) ==> {
                &&& a.id == old(self).next_id_spec()
                &&& a.alert_type@ == "whale_"@ + tx_type@
                &&& a.title@ == (if tx_type@ == "buy"@ {
                    "Whale ACCUMULATING"@
                } else {
                    "Whale DUMPING"@
                })
                &&& a.message@ == whale_message(
                    wallet@,
                    token.deep_view(),
                    amount_lamports,
                    amount_tokens,
                )
                &&& a.data.deep_view() == (AlertDataV::Whale {
                    wallet: wallet@,
                    token: token.deep_view(),
                    amount_lamports,
                    amount_tokens,
                    tx_type: tx_type@,
                })
                &&& final(self).next_id_spec() == old(self).next_id_spec() + 1
                &&& final(self).history_view() == history_after(
                    old(self).history_view(),
                    a.deep_view(),
                )
            },
    {
        let mut m = String::from_str("Wallet: `");
        m.append(wallet);
        m.append("`\nToken: ");
        m.append(token.symbol.as_str());
        m.append("\nAmount: ");
        let sol = format_sol2(amount_lamports);
        m.append(sol.as_str());
        m.append(" SOL (");
        let toks = u64_to_dec(amount_tokens);
        m.append(toks.as_str());
        m.append(" tokens)");
        proof {
            assert(m@ =~= whale_message(wallet@, token.deep_view(), amount_lamports, amount_tokens));
        }
        let title: &str = if str_eq(tx_type, "buy") {
            "Whale ACCUMULATING"
        } else {
            "Whale DUMPING"
        };
        let mut kind = String::from_str("whale_");
        kind.append(tx_type);
        self.send_alert(
            kind.as_str(),
            title,
            m.as_str(),
            AlertData::Whale {
                wallet: wallet.to_owned(),
                token: clone_token_info(token),
                amount_lamports,
                amount_tokens,
                tx_type: tx_type.to_owned(),
            },
        )
    }

    /// A suspicious-activity alert.
    pub fn alert_suspicious(&mut self, token: &TokenAlertInfo, reason: &str) -> (r: Option<Alert>)
        requires
            old(self).wf(),
        ensures
            final(self).wf(),
            old(self).next_id_spec() < 0x7fff_ffff_ffff_ffff ==> r is Some,
            old(self).next_id_spec() == 0x7fff_ffff_ffff_ffff ==> r is None && *final(self)
                == *old(self),
            r matches Some(a) ==> {
                &&& a.id == old(self).next_id_spec()
                &&& a.alert_type@ == "suspicious"@
                &&& a.title@ == "Suspicious Activity"@
                &&& a.message@ == token_reason_message(token.deep_view(), reason@)
                &&& a.data.deep_view() == (AlertDataV::Suspicious {
                    token: token.deep_view(),
                    reason: reason@,
                })
                &&& final(self).next_id_spec() == old(self).next_id_spec() + 1
                &&& final(self).history_view() == history_after(
                    old(self).history_view(),
                    a.deep_view(),
                )
            },
    {
        let mut m = String::from_str("Token: ");
        m.append(token.symbol.as_str());
        m.append("\nMint: `");
        m.append(token.mint.as_str());
        m.append("`\nReason: ");
        m.append(reason);
        proof {
            assert(m@ =~= token_reason_message(token.deep_view(), reason@));
        }
        self.send_alert(
            "suspicious",
            "Suspicious Activity",
            m.as_str(),
            AlertData::Suspicious { token: clone_token_info(token), reason: reason.to_owned() },
        )
    }
}

} // verus!
