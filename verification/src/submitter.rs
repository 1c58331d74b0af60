//! The transaction submitter: turns pending obligations into recorded
//! transactions, and records what became of handing transactions to the
//! chain.

use crate::amount::Amount;
use crate::clock::{utc_now, Timestamp};
use crate::ledger::Ledger;
use crate::model::{
    hash_view, obligation_views, text_views, Network, NewTransaction, ObligationStatus,
    ObligationView, Transaction, TransactionView, TxKind, TxStatus,
};
use crate::nonce::{next_nonce, next_nonce_of, NONCE_LIMIT};
use crate::seqs::lemma_filter_step;
use crate::settlement::{name_view, order_ids_of};
use crate::state::{in_status, LedgerView};
use vstd::prelude::*;

verus! {

/// What became of one pending obligation in a pass.
#[derive(Clone, Copy, Debug, PartialEq, Eq, Structural)]
pub enum PaymentStep {
    /// A transaction was recorded under this id and the obligation is sent.
    Recorded(usize),
    /// No transaction could be built; the obligation stays pending and is
    /// tried again in the next pass.
    Retry,
    /// No transaction could be built and the retry window has run out: the
    /// obligation has failed for good.
    Failed,
    /// The order names no pending obligation; nothing was done.
    Rejected,
}

/// The view of a payload that may be absent.
pub open spec fn payload_view(built: Option<Vec<u8>>) -> Option<Seq<u8>> {
    match built {
        Some(payload) => Some(payload@),
        None => None,
    }
}

/// The transfer that pays `o`, built with `nonce`, before it is recorded.
pub open spec fn transfer_for(o: ObligationView, nonce: u64, payload: Seq<u8>) -> TransactionView {
    TransactionView {
        tx_id: 0,
        encoded: payload,
        network: o.network,
        kind: TxKind::Transfer,
        sender: o.sender,
        nonce,
        hash: None,
        status: TxStatus::Unsent,
    }
}

/// What becomes of the obligation `order_id` when the attempt to build its
/// transfer with `nonce` ended as `built` says, at the time `now`.
///
/// A payload is recorded, unless the counter is exhausted: then there is no
/// number to record it under, which counts as a failure to build. After a
/// failure the obligation fails for good exactly when `now` lies after its
/// due date plus the retry window, and is left pending otherwise.
pub open spec fn payment_step(
    ledger: LedgerView,
    order_id: Seq<char>,
    nonce: u64,
    built: Option<Seq<u8>>,
    now: Timestamp,
) -> PaymentStep {
    if !ledger.order_in(order_id, ObligationStatus::Pending) {
        PaymentStep::Rejected
    } else if built is Some && nonce < NONCE_LIMIT {
        PaymentStep::Recorded(ledger.transactions.len() as usize)
    } else if now.is_past_deadline(ledger.obligation(order_id).due_by) {
        PaymentStep::Failed
    } else {
        PaymentStep::Retry
    }
}

/// The ledger after that step.
pub open spec fn ledger_after_payment(
    ledger: LedgerView,
    order_id: Seq<char>,
    nonce: u64,
    built: Option<Seq<u8>>,
    now: Timestamp,
) -> LedgerView {
    match payment_step(ledger, order_id, nonce, built, now) {
        PaymentStep::Recorded(_) => ledger.after_record(
            transfer_for(ledger.obligation(order_id), nonce, built->0),
            seq![order_id],
        ),
        PaymentStep::Failed => ledger.after_giving_up(order_id),
        _ => ledger,
    }
}

/// The counter after that step: one further where a transaction was
/// recorded, unchanged otherwise.
pub open spec fn nonce_after_payment(
    ledger: LedgerView,
    order_id: Seq<char>,
    nonce: u64,
    built: Option<Seq<u8>>,
    now: Timestamp,
) -> u64 {
    if payment_step(ledger, order_id, nonce, built, now) is Recorded {
        (nonce + 1) as u64
    } else {
        nonce
    }
}

/// Takes in how the attempt to build the transfer for the pending
/// obligation `order_id` ended: `built` holds the payload that was built with
/// the sequence number `*nonce`, or nothing where the build failed.
pub fn handle_payment_at(
    ledger: &mut Ledger,
    order_id: &str,
    nonce: &mut u64,
    built: Option<Vec<u8>>,
    now: Timestamp,
) -> (r: PaymentStep)
    requires
        old(ledger).wf(),
    ensures
        final(ledger).wf(),
        r == payment_step(old(ledger)@, order_id@, *old(nonce), payload_view(built), now),
        final(ledger)@ == ledger_after_payment(
            old(ledger)@,
            order_id@,
            *old(nonce),
            payload_view(built),
            now,
        ),
        *final(nonce) == nonce_after_payment(
            old(ledger)@,
            order_id@,
            *old(nonce),
            payload_view(built),
            now,
        ),
{
    let ghost before = ledger@;
    let obligation = match ledger.obligation(order_id) {
        Some(o) => o,
        None => {
            return PaymentStep::Rejected;
        },
    };
    if obligation.status != ObligationStatus::Pending {
        return PaymentStep::Rejected;
    }
    let number: u64 = *nonce;
    let payload = if number < NONCE_LIMIT {
        built
    } else {
        None
    };
    match payload {
        Some(payload) => {
            let mut order_ids: Vec<String> = Vec::new();
            order_ids.push(order_id.to_owned());
            assert(text_views(order_ids@) =~= seq![order_id@]);
            assert(before.all_pending(seq![order_id@]));
            let tx = NewTransaction {
                encoded: payload,
                network: obligation.network,
                kind: TxKind::Transfer,
                sender: obligation.sender,
                nonce: number,
            };
            assert(tx@ == transfer_for(before.obligation(order_id@), number, payload@));
            match ledger.record_transaction(tx, &order_ids) {
                Ok(tx_id) => {
                    *nonce = number + 1;
                    PaymentStep::Recorded(tx_id)
                },
                Err(_) => PaymentStep::Rejected,
            }
        },
        None => {
            if now.past_deadline(&obligation.due_by) {
                let marked = ledger.mark_obligation_failed(order_id);
                assert(marked is Ok);
                PaymentStep::Failed
            } else {
                PaymentStep::Retry
            }
        },
    }
}

/// `handle_payment_at` at the time that the system clock gives.
pub fn handle_payment(
    ledger: &mut Ledger,
    order_id: &str,
    nonce: &mut u64,
    built: Option<Vec<u8>>,
) -> (r: PaymentStep)
    requires
        old(ledger).wf(),
    ensures
        final(ledger).wf(),
        exists|now: Timestamp|
            {
                &&& r == #[trigger] payment_step(
                    old(ledger)@,
                    order_id@,
                    *old(nonce),
                    payload_view(built),
                    now,
                )
                &&& final(ledger)@ == ledger_after_payment(
                    old(ledger)@,
                    order_id@,
                    *old(nonce),
                    payload_view(built),
                    now,
                )
                &&& *final(nonce) == nonce_after_payment(
                    old(ledger)@,
                    order_id@,
                    *old(nonce),
                    payload_view(built),
                    now,
                )
            },
{
    let now = utc_now();
    handle_payment_at(ledger, order_id, nonce, built, now)
}

/// What the signer is asked to build: the transfer of `amount` from `sender`
/// to `recipient` on `network` under the sequence number `nonce`.
#[derive(Debug, PartialEq, Eq)]
pub struct TransferRequest {
    pub order_id: String,
    pub sender: String,
    pub recipient: String,
    pub amount: Amount,
    pub nonce: u64,
    pub network: Network,
}

/// A request as a mathematical value.
pub struct RequestView {
    pub order_id: Seq<char>,
    pub sender: Seq<char>,
    pub recipient: Seq<char>,
    pub amount: nat,
    pub nonce: u64,
    pub network: Network,
}

impl View for TransferRequest {
    type V = RequestView;

    open spec fn view(&self) -> RequestView {
        RequestView {
            order_id: self.order_id@,
            sender: self.sender@,
            recipient: self.recipient@,
            amount: self.amount@,
            nonce: self.nonce,
            network: self.network,
        }
    }
}

/// The request to build the transfer that pays `o` under `nonce`: for the
/// obligation's exact amount.
pub open spec fn request_for(o: ObligationView, nonce: u64) -> RequestView {
    RequestView {
        order_id: o.order_id,
        sender: o.sender,
        recipient: o.recipient,
        amount: o.amount,
        nonce,
        network: o.network,
    }
}

/// One obligation's turn in a pass: what the signer was asked, what it
/// answered, and what became of the obligation.
#[derive(Debug, PartialEq, Eq)]
pub struct Attempt {
    pub request: TransferRequest,
    /// The payload that the signer built, or nothing where it failed.
    pub built: Option<Vec<u8>>,
    pub step: PaymentStep,
}

/// The signer's answers of a sequence of attempts, in the same order.
pub open spec fn built_views(s: Seq<Attempt>) -> Seq<Option<Seq<u8>>> {
    s.map_values(|a: Attempt| payload_view(a.built))
}

/// The ledger and the counter in the course of a pass.
pub struct PassView {
    pub ledger: LedgerView,
    pub nonce: u64,
}

/// The ledger and the counter after the obligations `orders` had their turn
/// one after the other, `builds` being the signer's answers in the same
/// order.
pub open spec fn after_payments(
    ledger: LedgerView,
    nonce: u64,
    orders: Seq<Seq<char>>,
    builds: Seq<Option<Seq<u8>>>,
    now: Timestamp,
) -> PassView
    recommends
        orders.len() == builds.len(),
    decreases orders.len(),
{
    if orders.len() == 0 {
        PassView { ledger, nonce }
    } else {
        let earlier = after_payments(ledger, nonce, orders.drop_last(), builds.drop_last(), now);
        PassView {
            ledger: ledger_after_payment(
                earlier.ledger,
                orders.last(),
                earlier.nonce,
                builds.last(),
                now,
            ),
            nonce: nonce_after_payment(
                earlier.ledger,
                orders.last(),
                earlier.nonce,
                builds.last(),
                now,
            ),
        }
    }
}

/// The ledger and the counter when the `k`-th obligation's turn comes.
pub open spec fn before_turn(
    ledger: LedgerView,
    nonce: u64,
    orders: Seq<Seq<char>>,
    builds: Seq<Option<Seq<u8>>>,
    k: int,
    now: Timestamp,
) -> PassView {
    after_payments(ledger, nonce, orders.take(k), builds.take(k), now)
}

/// A copy of a payload that may be absent.
fn copy_payload(built: &Option<Vec<u8>>) -> (r: Option<Vec<u8>>)
    ensures
        payload_view(r) == payload_view(*built),
{
    match built {
        Some(payload) => {
            let copy = payload.clone();
            assert(copy@ =~= payload@);
            Some(copy)
        },
        None => None,
    }
}

/// One payment pass for the account `node_id` on `network` at the time
/// `now`.
///
/// `chain_nonce` is the sequence number that the chain expects next of the
/// account; where it is absent (the chain could not be asked) the pass does
/// nothing. Otherwise every pending obligation of the account has its turn,
/// oldest first: `sign` is asked to build its transfer under the current
/// sequence number, and the answer is taken in as `handle_payment_at` says.
/// The counter starts at the number that the nonce allocator gives and goes
/// one further with every transaction recorded.
pub fn process_payments_for_account_at<F: Fn(&TransferRequest) -> Option<Vec<u8>>>(
    ledger: &mut Ledger,
    node_id: &str,
    network: Network,
    chain_nonce: Option<u64>,
    sign: &F,
    now: Timestamp,
) -> (attempts: Vec<Attempt>)
    requires
        old(ledger).wf(),
        forall|request: &TransferRequest| call_requires(sign, (request,)),
    ensures
        final(ledger).wf(),
        chain_nonce is None ==> attempts@.len() == 0 && final(ledger)@ == old(ledger)@,
        chain_nonce is Some ==> pass_ran(
            old(ledger)@,
            node_id@,
            network,
            chain_nonce.unwrap(),
            attempts@,
            final(ledger)@,
            now,
        ),
        forall|k: int|
            0 <= k < attempts@.len() ==> call_ensures(
                sign,
                (&(#[trigger] attempts@[k]).request,),
                attempts@[k].built,
            ),
{
    let start = match chain_nonce {
        Some(chain_next) => next_nonce(ledger, node_id, network, chain_next),
        None => {
            return Vec::new();
        },
    };
    let ghost before = ledger@;
    let pending = ledger.pending_obligations(node_id, network);
    let ghost waiting = obligation_views(pending@);
    let ghost orders = order_ids_of(waiting);
    let mut nonce: u64 = start;
    let mut attempts: Vec<Attempt> = Vec::new();
    let mut k: usize = 0;
    assert(orders.take(0) =~= Seq::empty());
    assert(built_views(attempts@).take(0) =~= Seq::empty());
    while k < pending.len()
        invariant
            forall|request: &TransferRequest| call_requires(sign, (request,)),
            waiting == obligation_views(pending@),
            orders == order_ids_of(waiting),
            k <= pending@.len(),
            attempts@.len() == k,
            ledger.wf(),
            ledger@ == before_turn(
                before,
                start,
                orders,
                built_views(attempts@),
                k as int,
                now,
            ).ledger,
            nonce == before_turn(
                before,
                start,
                orders,
                built_views(attempts@),
                k as int,
                now,
            ).nonce,
            forall|j: int|
                0 <= j < k ==> turn_taken(
                    before,
                    start,
                    waiting,
                    built_views(attempts@),
                    j,
                    #[trigger] attempts@[j],
                    now,
                ),
            forall|j: int|
                0 <= j < k ==> call_ensures(
                    sign,
                    (&(#[trigger] attempts@[j]).request,),
                    attempts@[j].built,
                ),
        decreases pending@.len() - k,
    {
        let ghost earlier = attempts@;
        let o = &pending[k];
        let request = TransferRequest {
            order_id: o.order_id.clone(),
            sender: o.sender.clone(),
            recipient: o.recipient.clone(),
            amount: o.amount.clone(),
            nonce,
            network: o.network,
        };
        let built = sign(&request);
        let payload = copy_payload(&built);
        let step = handle_payment_at(ledger, o.order_id.as_str(), &mut nonce, payload, now);
        attempts.push(Attempt { request, built, step });
        proof {
            let builds = built_views(attempts@);
            assert(builds.take(k as int) =~= built_views(earlier).take(k as int));
            assert(builds.take(k + 1).drop_last() =~= builds.take(k as int));
            assert(orders.take(k + 1).drop_last() =~= orders.take(k as int));
            assert(orders.take(k + 1).last() == orders[k as int]);
            assert(builds.take(k + 1).last() == builds[k as int]);
            assert(orders[k as int] == waiting[k as int].order_id);
            assert(waiting[k as int] == o@);
            assert forall|j: int| 0 <= j < k + 1 implies turn_taken(
                before,
                start,
                waiting,
                builds,
                j,
                #[trigger] attempts@[j],
                now,
            ) by {
                if j < k {
                    assert(attempts@[j] == earlier[j]);
                    assert(builds.take(j) =~= built_views(earlier).take(j));
                    assert(turn_taken(
                        before,
                        start,
                        waiting,
                        built_views(earlier),
                        j,
                        earlier[j],
                        now,
                    ));
                }
            }
        }
        k = k + 1;
    }
    proof {
        assert(orders.take(k as int) =~= orders);
        assert(built_views(attempts@).take(k as int) =~= built_views(attempts@));
    }
    attempts
}

/// The `k`-th obligation had its turn as it should: the signer was asked for
/// the transfer that pays it under the counter's number at that moment, and
/// what became of it is what `payment_step` says of the signer's answer.
pub open spec fn turn_taken(
    ledger: LedgerView,
    start: u64,
    waiting: Seq<ObligationView>,
    builds: Seq<Option<Seq<u8>>>,
    k: int,
    attempt: Attempt,
    now: Timestamp,
) -> bool {
    let at_turn = before_turn(ledger, start, order_ids_of(waiting), builds, k, now);
    &&& attempt.request@ == request_for(waiting[k], at_turn.nonce)
    &&& attempt.step == payment_step(
        at_turn.ledger,
        waiting[k].order_id,
        at_turn.nonce,
        builds[k],
        now,
    )
}

/// A pass over the pending obligations of `account` on `network` ran from
/// the ledger `before` to the ledger `after` and is recorded in `attempts`:
/// one attempt for each obligation that was pending, oldest first, each
/// taken as `turn_taken` says, the counter starting at the number that the
/// nonce allocator gives.
pub open spec fn pass_ran(
    before: LedgerView,
    account: Seq<char>,
    network: Network,
    chain_next: u64,
    attempts: Seq<Attempt>,
    after: LedgerView,
    now: Timestamp,
) -> bool {
    let waiting = before.pending_obligations(account, network);
    let start = next_nonce_of(before, account, network, chain_next);
    let builds = built_views(attempts);
    &&& attempts.len() == waiting.len()
    &&& forall|k: int|
        0 <= k < attempts.len() ==> turn_taken(
            before,
            start,
            waiting,
            builds,
            k,
            #[trigger] attempts[k],
            now,
        )
    &&& after == after_payments(before, start, order_ids_of(waiting), builds, now).ledger
}

/// `process_payments_for_account_at` at the time that the system clock
/// gives when the pass begins.
pub fn process_payments_for_account<F: Fn(&TransferRequest) -> Option<Vec<u8>>>(
    ledger: &mut Ledger,
    node_id: &str,
    network: Network,
    chain_nonce: Option<u64>,
    sign: &F,
) -> (attempts: Vec<Attempt>)
    requires
        old(ledger).wf(),
        forall|request: &TransferRequest| call_requires(sign, (request,)),
    ensures
        final(ledger).wf(),
        chain_nonce is None ==> attempts@.len() == 0 && final(ledger)@ == old(ledger)@,
        chain_nonce is Some ==> exists|now: Timestamp|
            #[trigger] pass_ran(
                old(ledger)@,
                node_id@,
                network,
                chain_nonce.unwrap(),
                attempts@,
                final(ledger)@,
                now,
            ),
        forall|k: int|
            0 <= k < attempts@.len() ==> call_ensures(
                sign,
                (&(#[trigger] attempts@[k]).request,),
                attempts@[k].built,
            ),
{
    let now = utc_now();
    process_payments_for_account_at(ledger, node_id, network, chain_nonce, sign, now)
}

/// What became of handing one transaction to the chain.
#[derive(Clone, Copy, Debug, PartialEq, Eq, Structural)]
pub enum BroadcastStep {
    /// The chain accepted the transaction; it is recorded as submitted.
    Submitted,
    /// The chain did not accept it; it stays unsent and is handed over again
    /// in the next pass.
    LeftUnsent,
    /// The ledger refused the record: the transaction is unknown, or is past
    /// the point where this answer could apply. Nothing was changed.
    Rejected,
}

/// What becomes of the answer to handing transaction `tx` to the chain:
/// `hash` is the hash that the chain assigned, or nothing where the chain
/// did not accept the transaction.
pub open spec fn broadcast_step(ledger: LedgerView, tx: usize, hash: Option<Seq<char>>) -> BroadcastStep {
    match hash {
        Some(h) => if ledger.accepts_submission(tx, h) {
            BroadcastStep::Submitted
        } else {
            BroadcastStep::Rejected
        },
        None => if ledger.tx_in(tx, TxStatus::Unsent) {
            BroadcastStep::LeftUnsent
        } else {
            BroadcastStep::Rejected
        },
    }
}

/// The ledger after that answer was taken in.
pub open spec fn ledger_after_broadcast(
    ledger: LedgerView,
    tx: usize,
    hash: Option<Seq<char>>,
) -> LedgerView {
    match hash {
        Some(h) => ledger.after_submission(tx, h),
        None => ledger,
    }
}

/// Takes in the answer to handing transaction `tx_id` to the chain. An
/// accepted transaction becomes submitted under its hash; one that was not
/// accepted is left unsent, with no limit on how often it is tried again.
pub fn record_broadcast(ledger: &mut Ledger, tx_id: usize, hash: Option<&str>) -> (r:
    BroadcastStep)
    requires
        old(ledger).wf(),
    ensures
        final(ledger).wf(),
        r == broadcast_step(old(ledger)@, tx_id, name_view(hash)),
        final(ledger)@ == ledger_after_broadcast(old(ledger)@, tx_id, name_view(hash)),
{
    match hash {
        Some(h) => match ledger.mark_submitted(tx_id, h) {
            Ok(()) => BroadcastStep::Submitted,
            Err(_) => BroadcastStep::Rejected,
        },
        None => {
            let unsent: bool = match ledger.transaction(tx_id) {
                Some(tx) => tx.status == TxStatus::Unsent,
                None => false,
            };
            if unsent {
                BroadcastStep::LeftUnsent
            } else {
                BroadcastStep::Rejected
            }
        },
    }
}

/// One transaction's turn in a submission pass: the transaction as it was
/// handed to the chain, the chain's answer, and what became of it.
#[derive(Debug, PartialEq, Eq)]
pub struct Broadcast {
    pub transaction: Transaction,
    /// The hash that the chain assigned, or nothing where it did not accept
    /// the transaction.
    pub hash: Option<String>,
    pub step: BroadcastStep,
}

/// The transactions of a sequence of broadcasts, in the same order.
pub open spec fn sent_transactions(s: Seq<Broadcast>) -> Seq<TransactionView> {
    s.map_values(|b: Broadcast| b.transaction@)
}

/// The chain's answers of a sequence of broadcasts, in the same order.
pub open spec fn sent_hashes(s: Seq<Broadcast>) -> Seq<Option<Seq<char>>> {
    s.map_values(|b: Broadcast| hash_view(b.hash))
}

/// The ledger after the chain's answers for the transactions `txs` were
/// taken in one after the other.
pub open spec fn after_broadcasts(
    ledger: LedgerView,
    txs: Seq<TransactionView>,
    hashes: Seq<Option<Seq<char>>>,
) -> LedgerView
    recommends
        txs.len() == hashes.len(),
    decreases txs.len(),
{
    if txs.len() == 0 {
        ledger
    } else {
        ledger_after_broadcast(
            after_broadcasts(ledger, txs.drop_last(), hashes.drop_last()),
            txs.last().tx_id,
            hashes.last(),
        )
    }
}

/// One submission pass for `network`: every transaction of the network that
/// is unsent is handed to `broadcast` once, oldest first, and the answer is
/// taken in as `record_broadcast` says. An accepted transaction ends
/// submitted, one that was not accepted stays unsent.
pub fn process_transactions<F: Fn(&Transaction) -> Option<String>>(
    ledger: &mut Ledger,
    network: Network,
    broadcast: &F,
) -> (sent: Vec<Broadcast>)
    requires
        old(ledger).wf(),
        forall|tx: &Transaction| call_requires(broadcast, (tx,)),
    ensures
        final(ledger).wf(),
        sent_transactions(sent@) == old(ledger)@.unsent_transactions(network),
        forall|k: int|
            0 <= k < sent@.len() ==> call_ensures(
                broadcast,
                (&(#[trigger] sent@[k]).transaction,),
                sent@[k].hash,
            ),
        forall|k: int|
            0 <= k < sent@.len() ==> (#[trigger] sent@[k]).step == if sent@[k].hash is Some {
                BroadcastStep::Submitted
            } else {
                BroadcastStep::LeftUnsent
            },
        final(ledger)@ == after_broadcasts(
            old(ledger)@,
            sent_transactions(sent@),
            sent_hashes(sent@),
        ),
{
    let ghost before = ledger@;
    let ghost all = before.transactions;
    let ghost p = in_status(network, TxStatus::Unsent);
    let count: usize = ledger.transaction_count();
    let mut sent: Vec<Broadcast> = Vec::new();
    let mut t: usize = 0;
    assert(all.take(0).filter(p) =~= Seq::empty()) by {
        reveal(Seq::filter);
    }
    while t < count
        invariant
            forall|tx: &Transaction| call_requires(broadcast, (tx,)),
            before.wf(),
            all == before.transactions,
            p == in_status(network, TxStatus::Unsent),
            count == all.len(),
            t <= count,
            ledger.wf(),
            ledger@.transactions.len() == count,
            forall|u: int| t <= u < count ==> ledger@.transactions[u] == #[trigger] all[u],
            sent_transactions(sent@) =~= all.take(t as int).filter(p),
            ledger@ == after_broadcasts(before, sent_transactions(sent@), sent_hashes(sent@)),
            forall|k: int|
                0 <= k < sent@.len() ==> call_ensures(
                    broadcast,
                    (&(#[trigger] sent@[k]).transaction,),
                    sent@[k].hash,
                ),
            forall|k: int|
                0 <= k < sent@.len() ==> (#[trigger] sent@[k]).step == if sent@[k].hash is Some {
                    BroadcastStep::Submitted
                } else {
                    BroadcastStep::LeftUnsent
                },
        decreases count - t,
    {
        proof {
            lemma_filter_step(all, t as int, p);
            assert(ledger@.transactions[t as int] == all[t as int]);
        }
        let ghost earlier = sent@;
        match ledger.transaction(t) {
            Some(tx) => {
                if tx.status == TxStatus::Unsent && tx.network == network {
                    let hash = broadcast(&tx);
                    let step = match &hash {
                        Some(h) => record_broadcast(ledger, t, Some(h.as_str())),
                        None => record_broadcast(ledger, t, None),
                    };
                    sent.push(Broadcast { transaction: tx, hash, step });
                    proof {
                        let txs = sent_transactions(sent@);
                        let hashes = sent_hashes(sent@);
                        assert(txs.drop_last() =~= sent_transactions(earlier));
                        assert(hashes.drop_last() =~= sent_hashes(earlier));
                        assert(txs.last().tx_id == t);
                        assert(txs =~= sent_transactions(earlier).push(all[t as int]));
                    }
                }
            },
            None => {},
        }
        t = t + 1;
    }
    assert(all.take(t as int) =~= all);
    sent
}

} // verus!
