//! The program-log stream: subscription request, notification decoding, and
//! the reconnect state machine.
//!
//! The surrounding process owns the socket; it feeds every text frame, ping
//! and disconnect here and performs the waits this machine prescribes. The
//! reconnect delay starts at 5 seconds, doubles per failed attempt, is
//! capped at 60 seconds, and resets on a successful connect — so the stream
//! retries within a minute of any detected disconnect.

use vstd::prelude::*;
use crate::event::LogEvent;
use crate::counter::bump;

verus! {

/// What a notification text decodes to: the signature and log lines under
/// `params.result.value`, or nothing when the shape differs. A function of
/// the text alone.
pub uninterp spec fn log_notification_of(text: Seq<char>) -> Option<(Seq<char>, Seq<Seq<char>>)>;

/// Relies on serde_json's `from_str` and the `Value` accessors `get`,
/// `as_str` and `as_array`: reads `params.result.value.{signature, logs}`
/// out of a subscription notification. A missing signature reads as empty,
/// missing logs as none; a confirmation or error frame (no
/// `params.result.value`) decodes to `None`.
#[verifier::external_body]
pub fn decode_log_notification(text: &str) -> (r: Option<LogEvent>)
    ensures
        r is Some <==> log_notification_of(text@) is Some,
        r matches Some(ev) ==> log_notification_of(text@) == Some(
            (ev.signature@, ev.logs.deep_view()),
        ),
{
    let json: serde_json::Value = serde_json::from_str(text).ok()?;
    let value = json.get("params")?.get("result")?.get("value")?;
    let signature = value.get("signature").and_then(|s| s.as_str()).unwrap_or("").to_string();
    let logs: Vec<String> = value
        .get("logs")
        .and_then(|l| l.as_array())
        .map(|arr| arr.iter().filter_map(|v| v.as_str().map(String::from)).collect())
        .unwrap_or_default();
    Some(LogEvent { signature, logs })
}

/// The body of the log-subscription request for `program_id`, at commitment
/// "confirmed".
pub open spec fn subscribe_request_text(program_id: Seq<char>) -> Seq<char> {
    "{\"jsonrpc\":\"2.0\",\"id\":1,\"method\":\"logsSubscribe\",\"params\":[{\"mentions\":[\""@
        + program_id + "\"]},{\"commitment\":\"confirmed\"}]}"@
}

/// Builds the log-subscription request for `program_id`.
pub fn subscribe_request(program_id: &str) -> (r: String)
    ensures
        r@ == subscribe_request_text(program_id@),
{
    let mut s = String::from_str(
        "{\"jsonrpc\":\"2.0\",\"id\":1,\"method\":\"logsSubscribe\",\"params\":[{\"mentions\":[\"",
    );
    s.append(program_id);
    s.append("\"]},{\"commitment\":\"confirmed\"}]}");
    s
}

/// The delay before the next fetch retry: three retries at 500, 1000 and
/// 2000 milliseconds, and only when the failure was a rate limit.
pub fn retry_delay_ms(rate_limited: bool, attempts: u32) -> (r: Option<u64>)
    ensures
        !rate_limited ==> r is None,
        rate_limited && attempts == 0 ==> r == Some(500u64),
        rate_limited && attempts == 1 ==> r == Some(1000u64),
        rate_limited && attempts == 2 ==> r == Some(2000u64),
        rate_limited && attempts >= 3 ==> r is None,
        r is Some <==> rate_limited && attempts < 3,
{
    if !rate_limited {
        return None;
    }
    if attempts == 0 {
        Some(500)
    } else if attempts == 1 {
        Some(1000)
    } else if attempts == 2 {
        Some(2000)
    } else {
        None
    }
}

/// The reconnect state of the log subscription.
pub struct LogStream {
    connected: bool,
    backoff_secs: u64,
    messages_received: u64,
    last_frame_ms: i64,
}

impl LogStream {
    pub closed spec fn connected_spec(&self) -> bool {
        self.connected
    }

    pub closed spec fn backoff_spec(&self) -> u64 {
        self.backoff_secs
    }

    pub closed spec fn messages_received_spec(&self) -> u64 {
        self.messages_received
    }

    pub closed spec fn last_frame_spec(&self) -> i64 {
        self.last_frame_ms
    }

    /// The backoff always lies between 5 and 60 seconds.
    pub closed spec fn wf(&self) -> bool {
        5 <= self.backoff_secs <= 60
    }

    /// A fresh, disconnected stream with the initial 5-second backoff.
    pub fn new() -> (r: LogStream)
        ensures
            r.wf(),
            !r.connected_spec(),
            r.backoff_spec() == 5,
            r.messages_received_spec() == 0,
    {
        LogStream { connected: false, backoff_secs: 5, messages_received: 0, last_frame_ms: 0 }
    }

    /// A connection attempt succeeded: the backoff resets to 5 seconds.
    pub fn on_connected(&mut self, now_ms: i64)
        requires
            old(self).wf(),
        ensures
            final(self).wf(),
            final(self).connected_spec(),
            final(self).backoff_spec() == 5,
            final(self).last_frame_spec() == now_ms,
            final(self).messages_received_spec() == old(self).messages_received_spec(),
    {
        self.connected = true;
        self.backoff_secs = 5;
        self.last_frame_ms = now_ms;
    }

    /// The connection failed or dropped: wait the returned number of seconds
    /// before the next attempt — never more than 60 — and double the
    /// backoff, up to the 60-second cap.
    pub fn on_disconnect(&mut self) -> (delay_secs: u64)
        requires
            old(self).wf(),
        ensures
            final(self).wf(),
            !final(self).connected_spec(),
            delay_secs == old(self).backoff_spec(),
            delay_secs <= 60,
            final(self).backoff_spec() == if 2 * old(self).backoff_spec() <= 60 {
                2 * old(self).backoff_spec()
            } else {
                60int
            },
            final(self).messages_received_spec() == old(self).messages_received_spec(),
    {
        self.connected = false;
        let delay = self.backoff_secs;
        let doubled = self.backoff_secs * 2;
        self.backoff_secs = if doubled <= 60 {
            doubled
        } else {
            60
        };
        delay
    }

    /// Handles one text frame at `now_ms`: any frame refreshes the staleness
    /// clock; a decoded notification with a non-empty signature counts and
    /// is returned for publication.
    pub fn on_text_frame(&mut self, text: &str, now_ms: i64) -> (r: Option<LogEvent>)
        requires
            old(self).wf(),
        ensures
            final(self).wf(),
            final(self).last_frame_spec() == now_ms,
            final(self).connected_spec() == old(self).connected_spec(),
            final(self).backoff_spec() == old(self).backoff_spec(),
            r matches Some(ev) ==> log_notification_of(text@) == Some(
                (ev.signature@, ev.logs.deep_view()),
            ) && ev.signature@.len() > 0 && final(self).messages_received_spec() == (if old(
                self,
            ).messages_received_spec() < u64::MAX {
                old(self).messages_received_spec() + 1
            } else {
                old(self).messages_received_spec() as int
            }),
            r is None ==> final(self).messages_received_spec() == old(
                self,
            ).messages_received_spec() && (log_notification_of(text@) matches Some(ev)
                ==> ev.0.len() == 0),
    {
        self.last_frame_ms = now_ms;
        match decode_log_notification(text) {
            Some(ev) => {
                if !ev.signature.as_str().is_empty() {
                    self.messages_received = bump(self.messages_received);
                    Some(ev)
                } else {
                    None
                }
            },
            None => None,
        }
    }

    /// A ping or pong refreshes the staleness clock.
    pub fn on_control_frame(&mut self, now_ms: i64)
        requires
            old(self).wf(),
        ensures
            final(self).wf(),
            final(self).last_frame_spec() == now_ms,
            final(self).connected_spec() == old(self).connected_spec(),
            final(self).backoff_spec() == old(self).backoff_spec(),
            final(self).messages_received_spec() == old(self).messages_received_spec(),
    {
        self.last_frame_ms = now_ms;
    }

    /// No frame for over 120 seconds: tear the connection down.
    pub fn is_stale(&self, now_ms: i64) -> (r: bool)
        ensures
            r == ((now_ms as int) - (self.last_frame_spec() as int) > 120_000),
    {
        (now_ms as i128) - (self.last_frame_ms as i128) > 120_000
    }
}

/// The stream reconnects within the 60-second backoff cap of any detected
/// disconnect: the wait `on_disconnect` prescribes never exceeds 60 seconds.
pub proof fn lemma_reconnect_within_cap(s: LogStream)
    requires
        s.wf(),
    ensures
        s.backoff_spec() <= 60,
{
}

} // verus!
