//! The ledger store: the one record of which payments are owed, which
//! transactions carry them, and how far each has come.

use crate::model::{
    obligation_views, text_views, transaction_views, LedgerError, Network, NewTransaction,
    ObligationStatus, ObligationView, PaymentObligation, Transaction, TxStatus,
};
use crate::seqs::lemma_filter_step;
use crate::state::{bound_to, first_where, in_status, pending_for, LedgerView};
use crate::text::text_eq;
use vstd::prelude::*;

verus! {

/// The ledger store. Obligations and transactions are kept in the order in
/// which they were recorded; a transaction's id is its position.
#[derive(Debug, PartialEq, Eq)]
pub struct Ledger {
    obligations: Vec<PaymentObligation>,
    transactions: Vec<Transaction>,
}

impl View for Ledger {
    type V = LedgerView;

    closed spec fn view(&self) -> LedgerView {
        LedgerView {
            obligations: obligation_views(self.obligations@),
            transactions: transaction_views(self.transactions@),
        }
    }
}

impl Clone for Ledger {
    /// A copy of the ledger: it holds the same records in the same order.
    fn clone(&self) -> (r: Self)
        ensures
            r@ == self@,
    {
        let obligations = self.obligations.clone();
        let transactions = self.transactions.clone();
        let r = Ledger { obligations, transactions };
        assert(r@ =~= self@);
        r
    }
}

impl Ledger {
    /// The ledger's invariant holds.
    pub open spec fn wf(&self) -> bool {
        self@.wf()
    }

    /// A ledger that holds nothing.
    pub fn new() -> (r: Ledger)
        ensures
            r.wf(),
            r@ == LedgerView::empty(),
    {
        let r = Ledger { obligations: Vec::new(), transactions: Vec::new() };
        assert(r@ =~= LedgerView::empty());
        r
    }

    /// Number of obligations recorded.
    pub fn obligation_count(&self) -> (n: usize)
        ensures
            n == self@.obligations.len(),
    {
        self.obligations.len()
    }

    /// Number of transactions recorded.
    pub fn transaction_count(&self) -> (n: usize)
        ensures
            n == self@.transactions.len(),
    {
        self.transactions.len()
    }

    /// Position of the obligation with this order id.
    fn find_order(&self, order_id: &str) -> (r: Option<usize>)
        requires
            self.wf(),
        ensures
            r is Some <==> self@.has_order(order_id@),
            r is Some ==> r.unwrap() == self@.order_index(order_id@) && r.unwrap()
                < self@.obligations.len(),
    {
        let mut i: usize = 0;
        while i < self.obligations.len()
            invariant
                self.wf(),
                i <= self.obligations@.len(),
                forall|k: int| 0 <= k < i ==> (#[trigger] self@.obligations[k]).order_id != order_id@,
            decreases self.obligations@.len() - i,
        {
            if text_eq(self.obligations[i].order_id.as_str(), order_id) {
                assert(self@.obligations[i as int].order_id == order_id@);
                let ghost j = self@.order_index(order_id@);
                assert(self@.obligations[j].order_id == order_id@);
                assert(j == i);
                return Some(i);
            }
            i = i + 1;
        }
        None
    }

    /// The obligation with this order id, if one is recorded.
    pub fn obligation(&self, order_id: &str) -> (r: Option<PaymentObligation>)
        requires
            self.wf(),
        ensures
            r is Some <==> self@.has_order(order_id@),
            r is Some ==> r.unwrap()@ == self@.obligation(order_id@),
    {
        match self.find_order(order_id) {
            Some(i) => Some(self.obligations[i].clone()),
            None => None,
        }
    }

    /// The transaction with this id, if one is recorded.
    pub fn transaction(&self, tx_id: usize) -> (r: Option<Transaction>)
        ensures
            r is Some <==> tx_id < self@.transactions.len(),
            r is Some ==> r.unwrap()@ == self@.transactions[tx_id as int],
    {
        if tx_id < self.transactions.len() {
            Some(self.transactions[tx_id].clone())
        } else {
            None
        }
    }

    /// All pending obligations of `account` on `network`, oldest first.
    pub fn pending_obligations(&self, account: &str, network: Network) -> (r: Vec<
        PaymentObligation,
    >)
        ensures
            obligation_views(r@) == self@.pending_obligations(account@, network),
    {
        let ghost all = self@.obligations;
        let ghost p = pending_for(account@, network);
        let mut out: Vec<PaymentObligation> = Vec::new();
        let mut i: usize = 0;
        assert(all.take(0).filter(p) =~= Seq::empty()) by {
            reveal(Seq::filter);
        }
        while i < self.obligations.len()
            invariant
                all == self@.obligations,
                p == pending_for(account@, network),
                i <= self.obligations@.len(),
                obligation_views(out@) =~= all.take(i as int).filter(p),
            decreases self.obligations@.len() - i,
        {
            proof {
                lemma_filter_step(all, i as int, p);
            }
            let o = &self.obligations[i];
            if o.status == ObligationStatus::Pending && o.network == network && text_eq(
                o.sender.as_str(),
                account,
            ) {
                out.push(o.clone());
            }
            i = i + 1;
        }
        assert(all.take(i as int) =~= all);
        out
    }

    /// The transactions of `network` in `status`, oldest first.
    fn transactions_in(&self, network: Network, status: TxStatus) -> (r: Vec<Transaction>)
        ensures
            transaction_views(r@) == self@.transactions.filter(in_status(network, status)),
    {
        let ghost all = self@.transactions;
        let ghost p = in_status(network, status);
        let mut out: Vec<Transaction> = Vec::new();
        let mut i: usize = 0;
        assert(all.take(0).filter(p) =~= Seq::empty()) by {
            reveal(Seq::filter);
        }
        while i < self.transactions.len()
            invariant
                all == self@.transactions,
                p == in_status(network, status),
                i <= self.transactions@.len(),
                transaction_views(out@) =~= all.take(i as int).filter(p),
            decreases self.transactions@.len() - i,
        {
            proof {
                lemma_filter_step(all, i as int, p);
            }
            let t = &self.transactions[i];
            if t.status == status && t.network == network {
                out.push(t.clone());
            }
            i = i + 1;
        }
        assert(all.take(i as int) =~= all);
        out
    }

    /// All transactions of `network` that wait to be handed to the chain.
    pub fn unsent_transactions(&self, network: Network) -> (r: Vec<Transaction>)
        ensures
            transaction_views(r@) == self@.unsent_transactions(network),
    {
        self.transactions_in(network, TxStatus::Unsent)
    }

    /// All transactions of `network` that wait for the chain's verdict.
    pub fn unconfirmed_transactions(&self, network: Network) -> (r: Vec<Transaction>)
        ensures
            transaction_views(r@) == self@.unconfirmed_transactions(network),
    {
        self.transactions_in(network, TxStatus::Submitted)
    }

    /// The obligations that transaction `tx_id` carries, oldest first.
    pub fn obligations_of(&self, tx_id: usize) -> (r: Vec<PaymentObligation>)
        ensures
            obligation_views(r@) == self@.obligations_of(tx_id),
    {
        let ghost all = self@.obligations;
        let ghost p = bound_to(tx_id);
        let mut out: Vec<PaymentObligation> = Vec::new();
        let mut i: usize = 0;
        assert(all.take(0).filter(p) =~= Seq::empty()) by {
            reveal(Seq::filter);
        }
        while i < self.obligations.len()
            invariant
                all == self@.obligations,
                p == bound_to(tx_id),
                i <= self.obligations@.len(),
                obligation_views(out@) =~= all.take(i as int).filter(p),
            decreases self.obligations@.len() - i,
        {
            proof {
                lemma_filter_step(all, i as int, p);
            }
            let o = &self.obligations[i];
            let bound: bool = match o.tx_id {
                Some(t) => t == tx_id,
                None => false,
            };
            if bound {
                out.push(o.clone());
            }
            i = i + 1;
        }
        assert(all.take(i as int) =~= all);
        out
    }

    /// The oldest obligation whose transaction carries the hash `tx_hash`.
    pub fn first_obligation_for_transaction(&self, tx_hash: &str) -> (r: Option<
        PaymentObligation,
    >)
        requires
            self.wf(),
        ensures
            r is Some <==> self@.first_obligation_for_transaction(tx_hash@) is Some,
            r is Some ==> r.unwrap()@ == self@.first_obligation_for_transaction(tx_hash@).unwrap(),
    {
        let ghost all = self@.obligations;
        let ghost p = self@.carried_under(tx_hash@);
        let mut i: usize = 0;
        assert(all.skip(0) =~= all);
        while i < self.obligations.len()
            invariant
                self.wf(),
                all == self@.obligations,
                p == self@.carried_under(tx_hash@),
                i <= self.obligations@.len(),
                first_where(all, p) == first_where(all.skip(i as int), p),
            decreases self.obligations@.len() - i,
        {
            let o = &self.obligations[i];
            assert(all.skip(i as int)[0] == o@);
            assert(all.skip(i as int).drop_first() =~= all.skip(i + 1));
            assert(self@.sound(self@.obligations[i as int]));
            let carried: bool = match o.tx_id {
                Some(t) => match &self.transactions[t].hash {
                    Some(h) => text_eq(h.as_str(), tx_hash),
                    None => false,
                },
                None => false,
            };
            if carried {
                return Some(o.clone());
            }
            i = i + 1;
        }
        None
    }

    /// The highest sequence number among the transactions of `account` on
    /// `network` that were handed to the chain, if there is any.
    pub fn highest_submitted_nonce(&self, account: &str, network: Network) -> (r: Option<u64>)
        ensures
            r == self@.highest_submitted_nonce(account@, network),
    {
        let mut best: Option<u64> = None;
        let mut i: usize = 0;
        while i < self.transactions.len()
            invariant
                i <= self.transactions@.len(),
                best is None <==> forall|t: int|
                    0 <= t < i ==> !self@.counts_for_nonce(t, account@, network),
                best is Some ==> exists|t: int|
                    0 <= t < i && self@.counts_for_nonce(t, account@, network)
                        && self@.transactions[t].nonce == best.unwrap(),
                best is Some ==> forall|t: int|
                    0 <= t < i && self@.counts_for_nonce(t, account@, network)
                        ==> self@.transactions[t].nonce <= best.unwrap(),
            decreases self.transactions@.len() - i,
        {
            let t = &self.transactions[i];
            if t.status != TxStatus::Unsent && t.network == network && text_eq(
                t.sender.as_str(),
                account,
            ) {
                assert(self@.counts_for_nonce(i as int, account@, network));
                let higher: bool = match best {
                    Some(b) => t.nonce > b,
                    None => true,
                };
                if higher {
                    best = Some(t.nonce);
                }
            }
            i = i + 1;
        }
        proof {
            match best {
                Some(b) => {
                    assert(self@.is_highest_nonce(b, account@, network));
                    let c = choose|nonce: u64| self@.is_highest_nonce(nonce, account@, network);
                    assert(self@.is_highest_nonce(c, account@, network));
                    assert(c == b);
                },
                None => {},
            }
        }
        best
    }
}

/// Whether `order_id` is among `order_ids`.
fn is_listed(order_ids: &Vec<String>, order_id: &str) -> (r: bool)
    ensures
        r == text_views(order_ids@).contains(order_id@),
{
    let mut k: usize = 0;
    while k < order_ids.len()
        invariant
            k <= order_ids@.len(),
            forall|j: int| 0 <= j < k ==> (#[trigger] text_views(order_ids@)[j]) != order_id@,
        decreases order_ids@.len() - k,
    {
        if text_eq(order_ids[k].as_str(), order_id) {
            assert(text_views(order_ids@)[k as int] == order_id@);
            return true;
        }
        k = k + 1;
    }
    false
}

impl Ledger {
    /// Records a new obligation as pending. An order id that is already
    /// recorded is refused and nothing changes.
    pub fn record_obligation(&mut self, obligation: PaymentObligation) -> (r: Result<
        (),
        LedgerError,
    >)
        requires
            old(self).wf(),
        ensures
            final(self).wf(),
            final(self)@ == old(self)@.after_obligation(obligation@),
            r is Ok <==> !old(self)@.has_order(obligation@.order_id),
            r is Err ==> r.unwrap_err() == LedgerError::DuplicateOrder,
    {
        let ghost before = self@;
        if self.find_order(obligation.order_id.as_str()).is_some() {
            return Err(LedgerError::DuplicateOrder);
        }
        let mut o = obligation;
        o.status = ObligationStatus::Pending;
        o.tx_id = None;
        self.obligations.push(o);
        assert(self@ =~= before.after_obligation(obligation@));
        assert forall|i: int, j: int| 0 <= i < j < self@.obligations.len() implies self@.obligations[i].order_id
            != self@.obligations[j].order_id by {
            if j == before.obligations.len() {
                assert(before.obligations[i].order_id != obligation@.order_id);
            }
        }
        assert forall|i: int| 0 <= i < self@.obligations.len() implies self@.sound(
            #[trigger] self@.obligations[i],
        ) by {
            if i < before.obligations.len() {
                assert(before.sound(before.obligations[i]));
            }
        }
        Ok(())
    }

    /// Records a newly built transaction as unsent and binds the listed
    /// obligations to it: each becomes sent. Every listed order must name a
    /// pending obligation; otherwise nothing changes.
    pub fn record_transaction(&mut self, tx: NewTransaction, order_ids: &Vec<String>) -> (r:
        Result<usize, LedgerError>)
        requires
            old(self).wf(),
        ensures
            final(self).wf(),
            final(self)@ == old(self)@.after_record(tx@, text_views(order_ids@)),
            r is Ok <==> old(self)@.all_pending(text_views(order_ids@)),
            r is Ok ==> r.unwrap() == old(self)@.transactions.len(),
            r is Err ==> r.unwrap_err() == LedgerError::InconsistentState,
    {
        let ghost before = self@;
        let ghost ids = text_views(order_ids@);
        let mut k: usize = 0;
        while k < order_ids.len()
            invariant
                self.wf(),
                self@ == before,
                ids == text_views(order_ids@),
                k <= order_ids@.len(),
                forall|j: int|
                    0 <= j < k ==> before.order_in(#[trigger] ids[j], ObligationStatus::Pending),
            decreases order_ids@.len() - k,
        {
            let pending: bool = match self.find_order(order_ids[k].as_str()) {
                Some(i) => self.obligations[i].status == ObligationStatus::Pending,
                None => false,
            };
            if !pending {
                assert(!before.order_in(ids[k as int], ObligationStatus::Pending));
                return Err(LedgerError::InconsistentState);
            }
            k = k + 1;
        }
        let id: usize = self.transactions.len();
        let ghost after = before.after_record(tx@, ids);
        let mut i: usize = 0;
        while i < self.obligations.len()
            invariant
                ids == text_views(order_ids@),
                i <= self.obligations@.len(),
                self@.transactions == before.transactions,
                self@.obligations.len() == before.obligations.len(),
                after == before.after_record(tx@, ids),
                forall|j: int|
                    0 <= j < i ==> self@.obligations[j] == #[trigger] after.obligations[j],
                forall|j: int|
                    i <= j < before.obligations.len() ==> self@.obligations[j]
                        == #[trigger] before.obligations[j],
                before.all_pending(ids),
                id == before.transactions.len(),
            decreases self.obligations@.len() - i,
        {
            if is_listed(order_ids, self.obligations[i].order_id.as_str()) {
                self.obligations[i].status = ObligationStatus::Sent;
                self.obligations[i].tx_id = Some(id);
            }
            i = i + 1;
        }
        self.transactions.push(
            Transaction {
                tx_id: id,
                encoded: tx.encoded,
                network: tx.network,
                kind: tx.kind,
                sender: tx.sender,
                nonce: tx.nonce,
                hash: None,
                status: TxStatus::Unsent,
            },
        );
        assert(self@ =~= after);
        assert forall|a: int| 0 <= a < after.obligations.len() implies after.sound(
            #[trigger] after.obligations[a],
        ) by {
            assert(before.sound(before.obligations[a]));
        }
        Ok(id)
    }

    /// Records that the chain accepted transaction `tx_id` under the hash
    /// `tx_hash`: an unsent transaction becomes submitted. Reporting the same
    /// submission again changes nothing and succeeds; anything else (an
    /// unknown transaction, another hash, a finalized transaction) is
    /// refused and changes nothing.
    pub fn mark_submitted(&mut self, tx_id: usize, tx_hash: &str) -> (r: Result<(), LedgerError>)
        requires
            old(self).wf(),
        ensures
            final(self).wf(),
            final(self)@ == old(self)@.after_submission(tx_id, tx_hash@),
            r is Ok <==> old(self)@.accepts_submission(tx_id, tx_hash@),
            r is Err ==> r.unwrap_err() == LedgerError::InconsistentState,
    {
        let ghost before = self@;
        if tx_id >= self.transactions.len() {
            return Err(LedgerError::InconsistentState);
        }
        match self.transactions[tx_id].status {
            TxStatus::Unsent => {
                self.transactions[tx_id].hash = Some(tx_hash.to_owned());
                self.transactions[tx_id].status = TxStatus::Submitted;
                let ghost after = before.after_submission(tx_id, tx_hash@);
                assert(self@ =~= after);
                assert forall|a: int| 0 <= a < after.obligations.len() implies after.sound(
                    #[trigger] after.obligations[a],
                ) by {
                    assert(before.sound(before.obligations[a]));
                }
                Ok(())
            },
            TxStatus::Submitted => {
                let same: bool = match &self.transactions[tx_id].hash {
                    Some(h) => text_eq(h.as_str(), tx_hash),
                    None => false,
                };
                if same {
                    Ok(())
                } else {
                    Err(LedgerError::InconsistentState)
                }
            },
            _ => Err(LedgerError::InconsistentState),
        }
    }

    /// Records that transaction `tx_id` was finalized with success: a
    /// submitted transaction becomes confirmed, and so does every sent
    /// obligation that it carries. Returns the obligations that the
    /// transaction carries, oldest first. Reporting the same success again
    /// changes nothing and returns them again; anything else is refused and
    /// changes nothing.
    pub fn mark_confirmed_success(&mut self, tx_id: usize) -> (r: Result<
        Vec<PaymentObligation>,
        LedgerError,
    >)
        requires
            old(self).wf(),
        ensures
            final(self).wf(),
            final(self)@ == old(self)@.after_success(tx_id),
            r is Ok <==> old(self)@.tx_in(tx_id, TxStatus::Submitted) || old(self)@.tx_in(
                tx_id,
                TxStatus::ConfirmedSuccess,
            ),
            r is Ok ==> obligation_views(r.unwrap()@) == final(self)@.obligations_of(tx_id),
            r is Err ==> r.unwrap_err() == LedgerError::InconsistentState,
    {
        let ghost before = self@;
        if tx_id >= self.transactions.len() {
            return Err(LedgerError::InconsistentState);
        }
        match self.transactions[tx_id].status {
            TxStatus::Submitted => {
                self.transactions[tx_id].status = TxStatus::ConfirmedSuccess;
                let ghost after = before.after_success(tx_id);
                let mut i: usize = 0;
                while i < self.obligations.len()
                    invariant
                        i <= self.obligations@.len(),
                        before.tx_in(tx_id, TxStatus::Submitted),
                        after == before.after_success(tx_id),
                        self@.transactions == after.transactions,
                        self@.obligations.len() == before.obligations.len(),
                        forall|j: int|
                            0 <= j < i ==> self@.obligations[j] == #[trigger] after.obligations[j],
                        forall|j: int|
                            i <= j < before.obligations.len() ==> self@.obligations[j]
                                == #[trigger] before.obligations[j],
                    decreases self.obligations@.len() - i,
                {
                    let carried: bool = match self.obligations[i].tx_id {
                        Some(t) => t == tx_id,
                        None => false,
                    };
                    if carried && self.obligations[i].status == ObligationStatus::Sent {
                        self.obligations[i].status = ObligationStatus::Confirmed;
                    }
                    i = i + 1;
                }
                assert(self@ =~= after);
                assert forall|a: int| 0 <= a < after.obligations.len() implies after.sound(
                    #[trigger] after.obligations[a],
                ) by {
                    assert(before.sound(before.obligations[a]));
                }
                Ok(self.obligations_of(tx_id))
            },
            TxStatus::ConfirmedSuccess => Ok(self.obligations_of(tx_id)),
            _ => Err(LedgerError::InconsistentState),
        }
    }

    /// Records that transaction `tx_id` was finalized and reverted: a
    /// submitted transaction becomes failed. Returns the obligations that the
    /// transaction carries, oldest first; they are left as they are.
    /// Reporting the same failure again changes nothing and returns them
    /// again; anything else is refused and changes nothing.
    pub fn mark_confirmed_failure(&mut self, tx_id: usize) -> (r: Result<
        Vec<PaymentObligation>,
        LedgerError,
    >)
        requires
            old(self).wf(),
        ensures
            final(self).wf(),
            final(self)@ == old(self)@.after_failure(tx_id),
            r is Ok <==> old(self)@.tx_in(tx_id, TxStatus::Submitted) || old(self)@.tx_in(
                tx_id,
                TxStatus::ConfirmedFailure,
            ),
            r is Ok ==> obligation_views(r.unwrap()@) == final(self)@.obligations_of(tx_id),
            r is Err ==> r.unwrap_err() == LedgerError::InconsistentState,
    {
        let ghost before = self@;
        if tx_id >= self.transactions.len() {
            return Err(LedgerError::InconsistentState);
        }
        match self.transactions[tx_id].status {
            TxStatus::Submitted => {
                self.transactions[tx_id].status = TxStatus::ConfirmedFailure;
                let ghost after = before.after_failure(tx_id);
                assert(self@ =~= after);
                assert forall|a: int| 0 <= a < after.obligations.len() implies after.sound(
                    #[trigger] after.obligations[a],
                ) by {
                    assert(before.sound(before.obligations[a]));
                }
                Ok(self.obligations_of(tx_id))
            },
            TxStatus::ConfirmedFailure => Ok(self.obligations_of(tx_id)),
            _ => Err(LedgerError::InconsistentState),
        }
    }

    /// Gives the obligation up: a pending or sent obligation becomes failed.
    /// One that has failed already is left as it is. An unknown or a
    /// confirmed obligation is refused and nothing changes.
    pub fn mark_obligation_failed(&mut self, order_id: &str) -> (r: Result<(), LedgerError>)
        requires
            old(self).wf(),
        ensures
            final(self).wf(),
            final(self)@ == old(self)@.after_giving_up(order_id@),
            r is Ok <==> old(self)@.accepts_giving_up(order_id@),
            r is Err ==> r.unwrap_err() == LedgerError::InconsistentState,
    {
        let ghost before = self@;
        match self.find_order(order_id) {
            None => Err(LedgerError::InconsistentState),
            Some(i) => {
                match self.obligations[i].status {
                    ObligationStatus::Confirmed => Err(LedgerError::InconsistentState),
                    ObligationStatus::Failed => Ok(()),
                    _ => {
                        self.obligations[i].status = ObligationStatus::Failed;
                        let ghost after = before.after_giving_up(order_id@);
                        assert(self@ =~= after);
                        assert forall|a: int| 0 <= a < after.obligations.len() implies after.sound(
                            #[trigger] after.obligations[a],
                        ) by {
                            assert(before.sound(before.obligations[a]));
                        }
                        Ok(())
                    },
                }
            },
        }
    }
}

/// What a ledger with these records holds.
pub open spec fn records_view(
    obligations: Seq<PaymentObligation>,
    transactions: Seq<Transaction>,
) -> LedgerView {
    LedgerView {
        obligations: obligation_views(obligations),
        transactions: transaction_views(transactions),
    }
}

/// The first `n` obligations are sound and no two of them share an order id.
spec fn obligations_fit(ledger: LedgerView, n: int) -> bool {
    &&& forall|i: int, j: int|
        0 <= i < j < n ==> ledger.obligations[i].order_id != ledger.obligations[j].order_id
    &&& forall|i: int| 0 <= i < n ==> ledger.sound(#[trigger] ledger.obligations[i])
}

/// Whether the obligation fits the transactions: its status and its
/// transaction go together.
fn is_sound(o: &PaymentObligation, transactions: &Vec<Transaction>) -> (r: bool)
    ensures
        r == records_view(Seq::empty(), transactions@).sound(o@),
{
    let ghost ledger = records_view(Seq::empty(), transactions@);
    match o.tx_id {
        None => match o.status {
            ObligationStatus::Pending => true,
            ObligationStatus::Failed => true,
            _ => false,
        },
        Some(t) => {
            if t >= transactions.len() {
                false
            } else {
                assert(ledger.transactions[t as int] == transactions@[t as int]@);
                match o.status {
                    ObligationStatus::Pending => false,
                    ObligationStatus::Confirmed => transactions[t].status
                        == TxStatus::ConfirmedSuccess,
                    _ => true,
                }
            }
        },
    }
}

impl Ledger {
    /// All obligations, in the order in which they were recorded.
    pub fn obligations(&self) -> (r: Vec<PaymentObligation>)
        ensures
            obligation_views(r@) == self@.obligations,
    {
        let r = self.obligations.clone();
        assert(obligation_views(r@) =~= self@.obligations);
        r
    }

    /// All transactions, in the order in which they were recorded.
    pub fn transactions(&self) -> (r: Vec<Transaction>)
        ensures
            transaction_views(r@) == self@.transactions,
    {
        let r = self.transactions.clone();
        assert(transaction_views(r@) =~= self@.transactions);
        r
    }

    /// Rebuilds a ledger from its records, as a restart finds them in
    /// storage. Records that do not fit together (they break the ledger's
    /// invariant) are refused.
    pub fn restore(obligations: Vec<PaymentObligation>, transactions: Vec<Transaction>) -> (r:
        Result<Ledger, LedgerError>)
        ensures
            r is Ok <==> records_view(obligations@, transactions@).wf(),
            r is Ok ==> r.unwrap()@ == records_view(obligations@, transactions@),
            r is Err ==> r.unwrap_err() == LedgerError::InconsistentState,
    {
        let ghost ledger = records_view(obligations@, transactions@);
        let mut t: usize = 0;
        while t < transactions.len()
            invariant
                ledger == records_view(obligations@, transactions@),
                t <= transactions@.len(),
                forall|u: int|
                    0 <= u < t ==> {
                        &&& (#[trigger] ledger.transactions[u]).tx_id == u
                        &&& (ledger.transactions[u].status is Unsent
                            <==> ledger.transactions[u].hash is None)
                    },
            decreases transactions@.len() - t,
        {
            let tx = &transactions[t];
            assert(ledger.transactions[t as int] == tx@);
            let unsent: bool = tx.status == TxStatus::Unsent;
            if tx.tx_id != t || unsent != tx.hash.is_none() {
                return Err(LedgerError::InconsistentState);
            }
            t = t + 1;
        }
        let mut i: usize = 0;
        while i < obligations.len()
            invariant
                ledger == records_view(obligations@, transactions@),
                i <= obligations@.len(),
                obligations_fit(ledger, i as int),
            decreases obligations@.len() - i,
        {
            let o = &obligations[i];
            assert(ledger.obligations[i as int] == o@);
            assert(ledger.sound(o@) == records_view(Seq::empty(), transactions@).sound(o@));
            if !is_sound(o, &transactions) {
                return Err(LedgerError::InconsistentState);
            }
            let mut j: usize = 0;
            while j < i
                invariant
                    ledger == records_view(obligations@, transactions@),
                    i < obligations@.len(),
                    j <= i,
                    o == &obligations@[i as int],
                    forall|k: int|
                        0 <= k < j ==> (#[trigger] ledger.obligations[k]).order_id != o@.order_id,
                decreases i - j,
            {
                assert(ledger.obligations[j as int] == obligations@[j as int]@);
                if text_eq(obligations[j].order_id.as_str(), o.order_id.as_str()) {
                    assert(ledger.obligations[j as int].order_id == ledger.obligations[i as int].order_id);
                    return Err(LedgerError::InconsistentState);
                }
                j = j + 1;
            }
            i = i + 1;
        }
        let r = Ledger { obligations, transactions };
        assert(r@ =~= ledger);
        Ok(r)
    }
}

} // verus!
