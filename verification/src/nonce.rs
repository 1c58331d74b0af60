//! The nonce allocator: the next sequence number of an account.
//!
//! The chain accepts a transaction only under the account's next sequence
//! number, and no number may be used twice. The last value of the counter is
//! no sequence number: a counter that has reached it is exhausted.

use crate::ledger::Ledger;
use crate::model::Network;
use crate::state::LedgerView;
use vstd::prelude::*;

verus! {

/// The counter's last value. An account's sequence numbers lie below it.
pub const NONCE_LIMIT: u64 = 0xffff_ffff_ffff_ffff;

/// The next sequence number for a new transaction of `account` on `network`:
/// the one that the chain expects next, or the one past the highest that the
/// ledger has handed to the chain, whichever is higher. Transactions that
/// were submitted but are not yet visible on chain are thereby counted.
pub open spec fn next_nonce_of(
    ledger: LedgerView,
    account: Seq<char>,
    network: Network,
    chain_next: u64,
) -> u64 {
    match ledger.highest_submitted_nonce(account, network) {
        Some(highest) => if highest == NONCE_LIMIT {
            NONCE_LIMIT
        } else if highest + 1 > chain_next {
            (highest + 1) as u64
        } else {
            chain_next
        },
        None => chain_next,
    }
}

/// The next sequence number for a new transaction of `account` on
/// `network`, `chain_next` being the number that the chain expects next.
pub fn next_nonce(ledger: &Ledger, account: &str, network: Network, chain_next: u64) -> (r: u64)
    ensures
        r == next_nonce_of(ledger@, account@, network, chain_next),
        r >= chain_next,
{
    match ledger.highest_submitted_nonce(account, network) {
        Some(highest) => if highest == NONCE_LIMIT {
            NONCE_LIMIT
        } else if highest + 1 > chain_next {
            highest + 1
        } else {
            chain_next
        },
        None => chain_next,
    }
}

} // verus!
