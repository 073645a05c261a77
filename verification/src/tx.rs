//! The decoded-transaction model consumed by the analyzers.
//!
//! The chain hands back a richly encoded transaction; the analyzers only read
//! a handful of fields, gathered here as plain values. Balances are lamports
//! (1 SOL = 1_000_000_000 lamports). A missing piece of metadata is an empty
//! vector, which makes the parsers reject the transaction exactly as the
//! encoded form would.

use vstd::prelude::*;

verus! {

/// The fields of a fetched, decoded transaction that the analyzers read.
#[derive(Debug, Clone)]
pub struct DecodedTx {
    /// Transaction signatures; the first identifies the transaction.
    pub signatures: Vec<String>,
    /// Account keys of the message; the first is the fee payer / first signer.
    pub account_keys: Vec<String>,
    /// Lamport balances of the accounts before the transaction.
    pub pre_balances: Vec<u64>,
    /// Lamport balances of the accounts after the transaction.
    pub post_balances: Vec<u64>,
    /// Mints of the token balances recorded before the transaction.
    pub pre_token_mints: Vec<String>,
    /// Mints of the token balances recorded after the transaction.
    pub post_token_mints: Vec<String>,
    /// Program log lines recorded for the transaction.
    pub log_messages: Vec<String>,
}

/// The absolute lamport change of the first account, or 0 when either side is
/// missing.
pub open spec fn spec_first_delta(pre: Seq<u64>, post: Seq<u64>) -> u64 {
    if pre.len() > 0 && post.len() > 0 {
        if pre[0] >= post[0] {
            (pre[0] - post[0]) as u64
        } else {
            (post[0] - pre[0]) as u64
        }
    } else {
        0u64
    }
}

/// The absolute lamport change of the first account balance.
pub fn first_balance_delta(pre: &Vec<u64>, post: &Vec<u64>) -> (r: u64)
    ensures
        r == spec_first_delta(pre@, post@),
{
    if pre.len() > 0 && post.len() > 0 {
        let a = pre[0];
        let b = post[0];
        if a >= b {
            a - b
        } else {
            b - a
        }
    } else {
        0
    }
}

/// The first signature of the transaction, or the empty string.
pub fn first_signature(tx: &DecodedTx) -> (r: String)
    ensures
        tx.signatures@.len() > 0 ==> r@ == tx.signatures.deep_view()[0],
        tx.signatures@.len() == 0 ==> r@ == Seq::<char>::empty(),
{
    if tx.signatures.len() > 0 {
        proof {
            assert(tx.signatures.deep_view()[0] == tx.signatures@[0]@);
        }
        tx.signatures[0].clone()
    } else {
        String::new()
    }
}

} // verus!
