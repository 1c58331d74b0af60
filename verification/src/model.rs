//! The records of the ledger and their mathematical views.

use crate::amount::Amount;
use crate::clock::Timestamp;
use vstd::prelude::*;

verus! {

/// The chain a payment or a transaction belongs to, by its chain id.
#[derive(Clone, Copy, Debug, PartialEq, Eq, Structural)]
pub struct Network {
    pub id: u64,
}

/// Where a payment obligation stands.
#[derive(Clone, Copy, Debug, PartialEq, Eq, Structural)]
pub enum ObligationStatus {
    /// Recorded, bound to no transaction.
    Pending,
    /// Bound to one transaction whose outcome is not known yet.
    Sent,
    /// Settled on chain.
    Confirmed,
    /// Given up for good.
    Failed,
}

/// Where a transaction stands.
#[derive(Clone, Copy, Debug, PartialEq, Eq, Structural)]
pub enum TxStatus {
    /// Encoded, not yet handed to the chain.
    Unsent,
    /// Accepted by the chain client; the hash is known, the outcome is not.
    Submitted,
    /// Finalized, and the call went through.
    ConfirmedSuccess,
    /// Finalized, and the call was reverted.
    ConfirmedFailure,
}

/// What a transaction is for.
#[derive(Clone, Copy, Debug, PartialEq, Eq, Structural)]
pub enum TxKind {
    /// A token transfer.
    Transfer,
    /// A request for test funds to the sending account itself.
    Faucet,
    /// Anything else.
    Other,
}

/// Why the ledger refused an operation.
#[derive(Clone, Copy, Debug, PartialEq, Eq, Structural)]
pub enum LedgerError {
    /// The record is missing or not in a state that allows the operation.
    InconsistentState,
    /// An obligation with this order id is already recorded.
    DuplicateOrder,
}

/// "This account owes this payment."
#[derive(Debug, PartialEq, Eq)]
pub struct PaymentObligation {
    /// Identifier of the order that the payment settles, supplied by the
    /// agreement it stems from.
    pub order_id: String,
    /// The owing account.
    pub sender: String,
    /// The account to be paid.
    pub recipient: String,
    pub amount: Amount,
    pub network: Network,
    pub due_by: Timestamp,
    pub status: ObligationStatus,
    /// The transaction that carries the payment, once there is one.
    pub tx_id: Option<usize>,
}

/// A payment obligation as a mathematical value.
pub struct ObligationView {
    pub order_id: Seq<char>,
    pub sender: Seq<char>,
    pub recipient: Seq<char>,
    pub amount: nat,
    pub network: Network,
    pub due_by: Timestamp,
    pub status: ObligationStatus,
    pub tx_id: Option<usize>,
}

impl View for PaymentObligation {
    type V = ObligationView;

    open spec fn view(&self) -> ObligationView {
        ObligationView {
            order_id: self.order_id@,
            sender: self.sender@,
            recipient: self.recipient@,
            amount: self.amount@,
            network: self.network,
            due_by: self.due_by,
            status: self.status,
            tx_id: self.tx_id,
        }
    }
}

impl Clone for PaymentObligation {
    fn clone(&self) -> (r: Self)
        ensures
            r@ == self@,
    {
        PaymentObligation {
            order_id: self.order_id.clone(),
            sender: self.sender.clone(),
            recipient: self.recipient.clone(),
            amount: self.amount.clone(),
            network: self.network,
            due_by: self.due_by,
            status: self.status,
            tx_id: self.tx_id,
        }
    }
}

/// The views of a sequence of obligations, in the same order.
pub open spec fn obligation_views(s: Seq<PaymentObligation>) -> Seq<ObligationView> {
    s.map_values(|o: PaymentObligation| o@)
}

/// A transaction built for the chain.
#[derive(Debug, PartialEq, Eq)]
pub struct Transaction {
    /// The ledger's identifier of the transaction.
    pub tx_id: usize,
    /// The encoded payload to submit. The ledger never looks inside.
    pub encoded: Vec<u8>,
    pub network: Network,
    pub kind: TxKind,
    /// The account that sends the transaction.
    pub sender: String,
    /// The account's sequence number that the payload was built with.
    pub nonce: u64,
    /// The hash that the chain assigned, as text: two characters of prefix
    /// and the digits. Absent until the transaction is submitted.
    pub hash: Option<String>,
    pub status: TxStatus,
}

/// A transaction as a mathematical value.
pub struct TransactionView {
    pub tx_id: usize,
    pub encoded: Seq<u8>,
    pub network: Network,
    pub kind: TxKind,
    pub sender: Seq<char>,
    pub nonce: u64,
    pub hash: Option<Seq<char>>,
    pub status: TxStatus,
}

/// The view of a hash that may be absent.
pub open spec fn hash_view(hash: Option<String>) -> Option<Seq<char>> {
    match hash {
        Some(h) => Some(h@),
        None => None,
    }
}

impl View for Transaction {
    type V = TransactionView;

    open spec fn view(&self) -> TransactionView {
        TransactionView {
            tx_id: self.tx_id,
            encoded: self.encoded@,
            network: self.network,
            kind: self.kind,
            sender: self.sender@,
            nonce: self.nonce,
            hash: hash_view(self.hash),
            status: self.status,
        }
    }
}

impl Clone for Transaction {
    fn clone(&self) -> (r: Self)
        ensures
            r@ == self@,
    {
        let encoded = self.encoded.clone();
        assert(encoded@ =~= self.encoded@);
        let hash = match &self.hash {
            Some(h) => Some(h.clone()),
            None => None,
        };
        Transaction {
            tx_id: self.tx_id,
            encoded,
            network: self.network,
            kind: self.kind,
            sender: self.sender.clone(),
            nonce: self.nonce,
            hash,
            status: self.status,
        }
    }
}

/// The views of a sequence of transactions, in the same order.
pub open spec fn transaction_views(s: Seq<Transaction>) -> Seq<TransactionView> {
    s.map_values(|t: Transaction| t@)
}

/// A transaction that was built and is not recorded yet.
#[derive(Debug, PartialEq, Eq)]
pub struct NewTransaction {
    pub encoded: Vec<u8>,
    pub network: Network,
    pub kind: TxKind,
    pub sender: String,
    pub nonce: u64,
}

impl View for NewTransaction {
    type V = TransactionView;

    /// The transaction as it stands before the ledger gives it an id.
    open spec fn view(&self) -> TransactionView {
        TransactionView {
            tx_id: 0,
            encoded: self.encoded@,
            network: self.network,
            kind: self.kind,
            sender: self.sender@,
            nonce: self.nonce,
            hash: None,
            status: TxStatus::Unsent,
        }
    }
}

/// The views of a sequence of texts, in the same order.
pub open spec fn text_views(s: Seq<String>) -> Seq<Seq<char>> {
    s.map_values(|t: String| t@)
}

} // verus!
