//! The ledger as a mathematical value: what it holds, what makes it sound,
//! and what each operation of the store turns it into.

use crate::model::{Network, ObligationStatus, ObligationView, TransactionView, TxStatus};
use vstd::prelude::*;

verus! {

/// Obligations of `account` on `network` that wait for a transaction.
pub open spec fn pending_for(account: Seq<char>, network: Network) -> spec_fn(
    ObligationView,
) -> bool {
    |o: ObligationView| o.status is Pending && o.sender == account && o.network == network
}

/// Transactions of `network` in the given status.
pub open spec fn in_status(network: Network, status: TxStatus) -> spec_fn(TransactionView) -> bool {
    |t: TransactionView| t.status == status && t.network == network
}

/// Obligations carried by transaction `tx`.
pub open spec fn bound_to(tx: usize) -> spec_fn(ObligationView) -> bool {
    |o: ObligationView| o.tx_id == Some(tx)
}

/// The first element of `s` that meets `p`.
pub open spec fn first_where<A>(s: Seq<A>, p: spec_fn(A) -> bool) -> Option<A>
    decreases s.len(),
{
    if s.len() == 0 {
        None
    } else if p(s[0]) {
        Some(s[0])
    } else {
        first_where(s.drop_first(), p)
    }
}

/// What the ledger holds: the obligations and the transactions, each in the
/// order in which they were recorded.
#[verifier::ext_equal]
pub struct LedgerView {
    pub obligations: Seq<ObligationView>,
    pub transactions: Seq<TransactionView>,
}

impl LedgerView {
    /// An obligation's status and its transaction fit together: a pending
    /// one has no transaction, a sent or confirmed one has one, and a
    /// confirmed one only where that transaction succeeded.
    pub open spec fn sound(self, o: ObligationView) -> bool {
        &&& o.status is Pending ==> o.tx_id is None
        &&& (o.status is Sent || o.status is Confirmed) ==> o.tx_id is Some
        &&& o.tx_id is Some ==> o.tx_id->0 < self.transactions.len()
        &&& (o.status is Confirmed && o.tx_id is Some) ==> self.transactions[o.tx_id->0 as int].status
            is ConfirmedSuccess
    }

    /// The ledger's invariant: order ids are unique, every obligation is
    /// sound, a transaction's id is its position, and a transaction has a
    /// hash exactly when it has been submitted.
    pub open spec fn wf(self) -> bool {
        &&& forall|i: int, j: int|
            0 <= i < j < self.obligations.len() ==> self.obligations[i].order_id
                != self.obligations[j].order_id
        &&& forall|i: int|
            0 <= i < self.obligations.len() ==> self.sound(#[trigger] self.obligations[i])
        &&& forall|t: int|
            0 <= t < self.transactions.len() ==> {
                &&& (#[trigger] self.transactions[t]).tx_id == t
                &&& (self.transactions[t].status is Unsent <==> self.transactions[t].hash is None)
            }
    }

    pub open spec fn empty() -> LedgerView {
        LedgerView { obligations: Seq::empty(), transactions: Seq::empty() }
    }

    /// An obligation with this order id is recorded.
    pub open spec fn has_order(self, order_id: Seq<char>) -> bool {
        exists|i: int|
            0 <= i < self.obligations.len() && (#[trigger] self.obligations[i]).order_id
                == order_id
    }

    /// Position of the obligation with this order id.
    pub open spec fn order_index(self, order_id: Seq<char>) -> int {
        choose|i: int|
            0 <= i < self.obligations.len() && (#[trigger] self.obligations[i]).order_id
                == order_id
    }

    /// The obligation with this order id.
    pub open spec fn obligation(self, order_id: Seq<char>) -> ObligationView {
        self.obligations[self.order_index(order_id)]
    }

    /// The obligation with this order id is recorded and in this status.
    pub open spec fn order_in(self, order_id: Seq<char>, status: ObligationStatus) -> bool {
        self.has_order(order_id) && self.obligation(order_id).status == status
    }

    /// The transaction with this id is recorded and in this status.
    pub open spec fn tx_in(self, tx: usize, status: TxStatus) -> bool {
        tx < self.transactions.len() && self.transactions[tx as int].status == status
    }

    pub open spec fn pending_obligations(self, account: Seq<char>, network: Network) -> Seq<
        ObligationView,
    > {
        self.obligations.filter(pending_for(account, network))
    }

    pub open spec fn unsent_transactions(self, network: Network) -> Seq<TransactionView> {
        self.transactions.filter(in_status(network, TxStatus::Unsent))
    }

    pub open spec fn unconfirmed_transactions(self, network: Network) -> Seq<TransactionView> {
        self.transactions.filter(in_status(network, TxStatus::Submitted))
    }

    /// The obligations that transaction `tx` carries, oldest first.
    pub open spec fn obligations_of(self, tx: usize) -> Seq<ObligationView> {
        self.obligations.filter(bound_to(tx))
    }

    /// Obligations whose transaction carries this hash.
    pub open spec fn carried_under(self, hash: Seq<char>) -> spec_fn(ObligationView) -> bool {
        |o: ObligationView|
            o.tx_id is Some && o.tx_id->0 < self.transactions.len()
                && self.transactions[o.tx_id->0 as int].hash == Some(hash)
    }

    /// The oldest obligation whose transaction carries this hash.
    pub open spec fn first_obligation_for_transaction(self, hash: Seq<char>) -> Option<
        ObligationView,
    > {
        first_where(self.obligations, self.carried_under(hash))
    }

    /// A transaction of `account` on `network` that was handed to the chain.
    pub open spec fn counts_for_nonce(
        self,
        t: int,
        account: Seq<char>,
        network: Network,
    ) -> bool {
        &&& 0 <= t < self.transactions.len()
        &&& self.transactions[t].sender == account
        &&& self.transactions[t].network == network
        &&& !(self.transactions[t].status is Unsent)
    }

    /// `nonce` is the highest sequence number among the transactions of
    /// `account` on `network` that were handed to the chain.
    pub open spec fn is_highest_nonce(
        self,
        nonce: u64,
        account: Seq<char>,
        network: Network,
    ) -> bool {
        &&& exists|t: int|
            self.counts_for_nonce(t, account, network) && self.transactions[t].nonce == nonce
        &&& forall|t: int|
            self.counts_for_nonce(t, account, network) ==> self.transactions[t].nonce <= nonce
    }

    /// The highest sequence number among the transactions of `account` on
    /// `network` that were handed to the chain, if there is any.
    pub open spec fn highest_submitted_nonce(self, account: Seq<char>, network: Network) -> Option<
        u64,
    > {
        if exists|t: int| self.counts_for_nonce(t, account, network) {
            Some(choose|nonce: u64| self.is_highest_nonce(nonce, account, network))
        } else {
            None
        }
    }

    /// The ledger after a new pending obligation was recorded.
    pub open spec fn after_obligation(self, o: ObligationView) -> LedgerView {
        if self.has_order(o.order_id) {
            self
        } else {
            LedgerView {
                obligations: self.obligations.push(
                    ObligationView { status: ObligationStatus::Pending, tx_id: None, ..o },
                ),
                transactions: self.transactions,
            }
        }
    }

    /// Every listed order names a pending obligation.
    pub open spec fn all_pending(self, order_ids: Seq<Seq<char>>) -> bool {
        forall|k: int|
            0 <= k < order_ids.len() ==> self.order_in(
                #[trigger] order_ids[k],
                ObligationStatus::Pending,
            )
    }

    /// The ledger after `tx` was recorded as its next transaction and the
    /// listed obligations were bound to it.
    pub open spec fn after_record(self, tx: TransactionView, order_ids: Seq<Seq<char>>) -> LedgerView {
        if self.all_pending(order_ids) {
            let id = self.transactions.len() as usize;
            LedgerView {
                obligations: self.obligations.map_values(
                    |o: ObligationView|
                        if order_ids.contains(o.order_id) {
                            ObligationView {
                                status: ObligationStatus::Sent,
                                tx_id: Some(id),
                                ..o
                            }
                        } else {
                            o
                        },
                ),
                transactions: self.transactions.push(
                    TransactionView { tx_id: id, hash: None, status: TxStatus::Unsent, ..tx },
                ),
            }
        } else {
            self
        }
    }

    /// Submission of `tx` under `hash` is in order: the transaction is
    /// unsent, or was submitted under this very hash before.
    pub open spec fn accepts_submission(self, tx: usize, hash: Seq<char>) -> bool {
        self.tx_in(tx, TxStatus::Unsent) || (self.tx_in(tx, TxStatus::Submitted)
            && self.transactions[tx as int].hash == Some(hash))
    }

    /// The ledger after `tx` was reported submitted under `hash`.
    pub open spec fn after_submission(self, tx: usize, hash: Seq<char>) -> LedgerView {
        if self.tx_in(tx, TxStatus::Unsent) {
            LedgerView {
                obligations: self.obligations,
                transactions: self.transactions.update(
                    tx as int,
                    TransactionView {
                        hash: Some(hash),
                        status: TxStatus::Submitted,
                        ..self.transactions[tx as int]
                    },
                ),
            }
        } else {
            self
        }
    }

    /// The ledger after `tx` was reported finalized with success: the
    /// transaction is confirmed, and so is every sent obligation it carries.
    pub open spec fn after_success(self, tx: usize) -> LedgerView {
        if self.tx_in(tx, TxStatus::Submitted) {
            LedgerView {
                obligations: self.obligations.map_values(
                    |o: ObligationView|
                        if o.tx_id == Some(tx) && o.status is Sent {
                            ObligationView { status: ObligationStatus::Confirmed, ..o }
                        } else {
                            o
                        },
                ),
                transactions: self.transactions.update(
                    tx as int,
                    TransactionView {
                        status: TxStatus::ConfirmedSuccess,
                        ..self.transactions[tx as int]
                    },
                ),
            }
        } else {
            self
        }
    }

    /// The ledger after `tx` was reported finalized and reverted.
    pub open spec fn after_failure(self, tx: usize) -> LedgerView {
        if self.tx_in(tx, TxStatus::Submitted) {
            LedgerView {
                obligations: self.obligations,
                transactions: self.transactions.update(
                    tx as int,
                    TransactionView {
                        status: TxStatus::ConfirmedFailure,
                        ..self.transactions[tx as int]
                    },
                ),
            }
        } else {
            self
        }
    }

    /// The ledger after `tx` was reported finalized and reverted and every
    /// obligation that it carries was given up.
    pub open spec fn after_revert(self, tx: usize) -> LedgerView {
        if self.tx_in(tx, TxStatus::Submitted) {
            LedgerView {
                obligations: self.obligations.map_values(
                    |o: ObligationView|
                        if o.tx_id == Some(tx) {
                            ObligationView { status: ObligationStatus::Failed, ..o }
                        } else {
                            o
                        },
                ),
                transactions: self.after_failure(tx).transactions,
            }
        } else {
            self
        }
    }

    /// The obligation can be given up: it is recorded and not confirmed.
    pub open spec fn accepts_giving_up(self, order_id: Seq<char>) -> bool {
        self.has_order(order_id) && !(self.obligation(order_id).status is Confirmed)
    }

    /// The ledger after the obligation was given up.
    pub open spec fn after_giving_up(self, order_id: Seq<char>) -> LedgerView {
        if self.order_in(order_id, ObligationStatus::Pending) || self.order_in(
            order_id,
            ObligationStatus::Sent,
        ) {
            LedgerView {
                obligations: self.obligations.update(
                    self.order_index(order_id),
                    ObligationView {
                        status: ObligationStatus::Failed,
                        ..self.obligation(order_id)
                    },
                ),
                transactions: self.transactions,
            }
        } else {
            self
        }
    }
}

} // verus!
