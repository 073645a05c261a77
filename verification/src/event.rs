//! Log events from the program-log subscription, and their classification.
//!
//! Every subscriber classifies an event by substring match over its log
//! lines; the classifiers here say exactly which lines make an event a
//! create, sell, buy or liquidity-removal candidate.

use vstd::prelude::*;
use crate::text::{contains_seq, contains_str};

verus! {

/// One message from the program-log stream: a transaction id and its log lines.
#[derive(Debug, Clone)]
pub struct LogEvent {
    pub signature: String,
    pub logs: Vec<String>,
}

/// Some line of `logs` contains `needle`.
pub open spec fn any_line_contains(logs: Seq<Seq<char>>, needle: Seq<char>) -> bool {
    exists|i: int| 0 <= i < logs.len() && contains_seq(#[trigger] logs[i], needle)
}

/// Does some log line contain `needle`?
pub fn any_contains(logs: &Vec<String>, needle: &str) -> (r: bool)
    ensures
        r == any_line_contains(logs.deep_view(), needle@),
{
    let n = logs.len();
    let mut i: usize = 0;
    while i < n
        invariant
            n == logs.len(),
            i <= n,
            forall|k: int| 0 <= k < i ==> !contains_seq(#[trigger] logs.deep_view()[k], needle@),
        decreases n - i,
    {
        proof {
            assert(logs.deep_view()[i as int] == logs@[i as int]@);
        }
        if contains_str(logs[i].as_str(), needle) {
            return true;
        }
        i += 1;
    }
    false
}

/// The event announces a token creation.
pub open spec fn spec_is_create(logs: Seq<Seq<char>>) -> bool {
    any_line_contains(logs, "Program log: Instruction: Create"@) || any_line_contains(
        logs,
        "Program log: Instruction: Initialize"@,
    )
}

/// The event announces a sell instruction.
pub open spec fn spec_is_sell(logs: Seq<Seq<char>>) -> bool {
    any_line_contains(logs, "Program log: Instruction: Sell"@)
}

/// The event announces a buy instruction.
pub open spec fn spec_is_buy(logs: Seq<Seq<char>>) -> bool {
    any_line_contains(logs, "Program log: Instruction: Buy"@)
}

/// The event looks like a liquidity removal.
pub open spec fn spec_is_lp_removal(logs: Seq<Seq<char>>) -> bool {
    any_line_contains(logs, "withdraw"@) || any_line_contains(logs, "remove_liquidity"@)
        || any_line_contains(logs, "migrate"@)
}

/// Classifies an event as a token creation.
pub fn is_create_event(logs: &Vec<String>) -> (r: bool)
    ensures
        r == spec_is_create(logs.deep_view()),
{
    any_contains(logs, "Program log: Instruction: Create") || any_contains(
        logs,
        "Program log: Instruction: Initialize",
    )
}

/// Classifies an event as a sell.
pub fn is_sell_event(logs: &Vec<String>) -> (r: bool)
    ensures
        r == spec_is_sell(logs.deep_view()),
{
    any_contains(logs, "Program log: Instruction: Sell")
}

/// Classifies an event as a buy.
pub fn is_buy_event(logs: &Vec<String>) -> (r: bool)
    ensures
        r == spec_is_buy(logs.deep_view()),
{
    any_contains(logs, "Program log: Instruction: Buy")
}

/// Classifies an event as a possible liquidity removal.
pub fn is_lp_removal_event(logs: &Vec<String>) -> (r: bool)
    ensures
        r == spec_is_lp_removal(logs.deep_view()),
{
    any_contains(logs, "withdraw") || any_contains(logs, "remove_liquidity") || any_contains(
        logs,
        "migrate",
    )
}

} // verus!
