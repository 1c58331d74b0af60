//! Laws of the engine: what holds of every ledger and every course of
//! events, proved from the definitions that the contracts use.

use crate::clock::Timestamp;
use crate::model::{Network, ObligationStatus, ObligationView, TransactionView, TxStatus};
use crate::nonce::{next_nonce_of, NONCE_LIMIT};
use crate::poller::{
    details_wanted, finding, ledger_after_report, ledger_after_reports, notice_after_report,
    ReportView,
};
use crate::seqs::{
    lemma_filter_begins_with_first, lemma_filter_of_changed, lemma_filter_step,
    lemma_first_index, lemma_first_where_exists, lemma_first_where_finds_first,
};
use crate::settlement::{order_ids_of, total_amount};
use crate::state::{bound_to, in_status, LedgerView};
use crate::submitter::{
    after_broadcasts, after_payments, broadcast_step, ledger_after_broadcast,
    ledger_after_payment, payment_step, BroadcastStep, PaymentStep,
};
use crate::txhash::{chain_hash, notice_hash};
use vstd::prelude::*;

verus! {

/// A transaction has reached one of its two final states.
pub open spec fn is_final(status: TxStatus) -> bool {
    status is ConfirmedSuccess || status is ConfirmedFailure
}

/// Every transaction that is final in `before` is still there in `after`,
/// unchanged.
pub open spec fn final_transactions_kept(before: LedgerView, after: LedgerView) -> bool {
    forall|t: int|
        0 <= t < before.transactions.len() && is_final((#[trigger] before.transactions[t]).status)
            ==> t < after.transactions.len() && after.transactions[t] == before.transactions[t]
}

/// In one payment pass the recorded transactions carry the counter's numbers
/// one after the other, beginning with the number that the pass started at:
/// strictly increasing, without a gap, none twice. Transactions that were
/// there before the pass are left as they were.
pub proof fn lemma_nonces_are_consecutive(
    ledger: LedgerView,
    start: u64,
    orders: Seq<Seq<char>>,
    builds: Seq<Option<Seq<u8>>>,
    now: Timestamp,
)
    requires
        orders.len() == builds.len(),
    ensures
        ({
            let end = after_payments(ledger, start, orders, builds, now);
            let recorded = end.nonce - start;
            &&& recorded >= 0
            &&& end.ledger.transactions.len() == ledger.transactions.len() + recorded
            &&& forall|i: int|
                0 <= i < recorded ==> (#[trigger] end.ledger.transactions[ledger.transactions.len()
                    + i]).nonce == start + i
            &&& forall|t: int|
                0 <= t < ledger.transactions.len() ==> #[trigger] end.ledger.transactions[t]
                    == ledger.transactions[t]
        }),
    decreases orders.len(),
{
    if orders.len() > 0 {
        lemma_nonces_are_consecutive(ledger, start, orders.drop_last(), builds.drop_last(), now);
        let earlier = after_payments(ledger, start, orders.drop_last(), builds.drop_last(), now);
        let id = orders.last();
        let step = payment_step(earlier.ledger, id, earlier.nonce, builds.last(), now);
        if step is Recorded {
            assert(earlier.ledger.all_pending(seq![id]));
        }
    }
}

/// The number that a pass starts at is fresh: it is at least the number
/// that the chain expects, and no transaction of the account that the ledger
/// has handed to the chain carries it or a higher one, unless the counter is
/// exhausted, in which case the pass records nothing.
pub proof fn lemma_pass_starts_at_a_fresh_number(
    ledger: LedgerView,
    account: Seq<char>,
    network: Network,
    chain_next: u64,
    t: int,
)
    requires
        ledger.counts_for_nonce(t, account, network),
    ensures
        ({
            let start = next_nonce_of(ledger, account, network, chain_next);
            &&& start >= chain_next
            &&& start == NONCE_LIMIT || ledger.transactions[t].nonce < start
        }),
{
    let highest = choose|nonce: u64| ledger.is_highest_nonce(nonce, account, network);
    lemma_highest_exists(ledger, account, network, ledger.transactions.len() as int, t);
    assert(ledger.is_highest_nonce(highest, account, network));
}

/// Among the first `n` transactions, those of the account that were handed
/// to the chain have a highest sequence number.
proof fn lemma_highest_exists(ledger: LedgerView, account: Seq<char>, network: Network, n: int, t: int)
    requires
        0 <= t < n <= ledger.transactions.len(),
        ledger.counts_for_nonce(t, account, network),
    ensures
        exists|top: int|
            0 <= top < n && ledger.counts_for_nonce(top, account, network) && forall|u: int|
                0 <= u < n && ledger.counts_for_nonce(u, account, network)
                    ==> ledger.transactions[u].nonce <= ledger.transactions[top].nonce,
        n == ledger.transactions.len() ==> exists|nonce: u64|
            ledger.is_highest_nonce(nonce, account, network),
    decreases n,
{
    let last = n - 1;
    if exists|u: int| 0 <= u < last && ledger.counts_for_nonce(u, account, network) {
        let u = choose|u: int| 0 <= u < last && ledger.counts_for_nonce(u, account, network);
        lemma_highest_exists(ledger, account, network, last, u);
        let below = choose|top: int|
            0 <= top < last && ledger.counts_for_nonce(top, account, network) && forall|u: int|
                0 <= u < last && ledger.counts_for_nonce(u, account, network)
                    ==> ledger.transactions[u].nonce <= ledger.transactions[top].nonce;
        let top = if ledger.counts_for_nonce(last, account, network)
            && ledger.transactions[last].nonce > ledger.transactions[below].nonce {
            last
        } else {
            below
        };
        assert(0 <= top < n && ledger.counts_for_nonce(top, account, network) && forall|u: int|
            0 <= u < n && ledger.counts_for_nonce(u, account, network)
                ==> ledger.transactions[u].nonce <= ledger.transactions[top].nonce);
        if n == ledger.transactions.len() {
            assert(ledger.is_highest_nonce(ledger.transactions[top].nonce, account, network));
        }
    } else {
        assert(t == last);
        assert(0 <= last < n && ledger.counts_for_nonce(last, account, network) && forall|u: int|
            0 <= u < n && ledger.counts_for_nonce(u, account, network)
                ==> ledger.transactions[u].nonce <= ledger.transactions[last].nonce);
        if n == ledger.transactions.len() {
            assert(ledger.is_highest_nonce(ledger.transactions[last].nonce, account, network));
        }
    }
}

/// An obligation whose transfer could not be built fails for good exactly
/// when `now` lies after its due date plus the retry window. At any earlier
/// moment nothing changes: it stays pending and is tried again.
pub proof fn lemma_failed_exactly_past_deadline(
    ledger: LedgerView,
    order_id: Seq<char>,
    nonce: u64,
    now: Timestamp,
)
    requires
        ledger.wf(),
        ledger.order_in(order_id, ObligationStatus::Pending),
    ensures
        ({
            let due = ledger.obligation(order_id).due_by;
            let step = payment_step(ledger, order_id, nonce, None, now);
            let after = ledger_after_payment(ledger, order_id, nonce, None, now);
            &&& step == PaymentStep::Failed <==> now.is_past_deadline(due)
            &&& step == PaymentStep::Retry <==> !now.is_past_deadline(due)
            &&& now.is_past_deadline(due) ==> after.order_in(order_id, ObligationStatus::Failed)
            &&& !now.is_past_deadline(due) ==> after == ledger
        }),
{
    let due = ledger.obligation(order_id).due_by;
    if now.is_past_deadline(due) {
        let after = ledger.after_giving_up(order_id);
        let i = ledger.order_index(order_id);
        assert(after.obligations[i].order_id == order_id);
        let j = after.order_index(order_id);
        assert(after.obligations[j].order_id == order_id);
        assert(ledger.obligations[j].order_id == order_id);
        assert(i == j);
    }
}

/// No operation of the store moves a transaction out of a final state:
/// whatever is recorded, submitted, confirmed, failed or given up, every
/// transaction that is final stays exactly as it is.
pub proof fn lemma_store_keeps_final_states(
    ledger: LedgerView,
    obligation: ObligationView,
    built: TransactionView,
    order_ids: Seq<Seq<char>>,
    tx: usize,
    hash: Seq<char>,
    order_id: Seq<char>,
)
    ensures
        final_transactions_kept(ledger, ledger.after_obligation(obligation)),
        final_transactions_kept(ledger, ledger.after_record(built, order_ids)),
        final_transactions_kept(ledger, ledger.after_submission(tx, hash)),
        final_transactions_kept(ledger, ledger.after_success(tx)),
        final_transactions_kept(ledger, ledger.after_failure(tx)),
        final_transactions_kept(ledger, ledger.after_revert(tx)),
        final_transactions_kept(ledger, ledger.after_giving_up(order_id)),
{
}

/// The hash of a transaction, once set, never changes: no operation of the
/// store touches the hash of a transaction that has one.
pub proof fn lemma_hash_is_kept(
    ledger: LedgerView,
    obligation: ObligationView,
    built: TransactionView,
    order_ids: Seq<Seq<char>>,
    tx: usize,
    hash: Seq<char>,
    order_id: Seq<char>,
    t: int,
)
    requires
        0 <= t < ledger.transactions.len(),
        ledger.transactions[t].hash is Some,
        ledger.wf(),
    ensures
        ledger.after_obligation(obligation).transactions[t].hash == ledger.transactions[t].hash,
        ledger.after_record(built, order_ids).transactions[t].hash == ledger.transactions[t].hash,
        ledger.after_submission(tx, hash).transactions[t].hash == ledger.transactions[t].hash,
        ledger.after_success(tx).transactions[t].hash == ledger.transactions[t].hash,
        ledger.after_failure(tx).transactions[t].hash == ledger.transactions[t].hash,
        ledger.after_revert(tx).transactions[t].hash == ledger.transactions[t].hash,
        ledger.after_giving_up(order_id).transactions[t].hash == ledger.transactions[t].hash,
{
}

/// No report moves a transaction out of a final state: whatever the chain
/// is said to report, of whichever transaction, every transaction that is
/// final stays exactly as it is.
pub proof fn lemma_final_state_is_kept(ledger: LedgerView, network: Network, report: ReportView)
    ensures
        final_transactions_kept(ledger, ledger_after_report(ledger, network, report)),
{
}

/// A whole confirmation pass moves no transaction out of a final state.
pub proof fn lemma_pass_keeps_final_states(
    ledger: LedgerView,
    network: Network,
    reports: Seq<ReportView>,
)
    ensures
        final_transactions_kept(ledger, ledger_after_reports(ledger, network, reports)),
    decreases reports.len(),
{
    if reports.len() > 0 {
        lemma_pass_keeps_final_states(ledger, network, reports.drop_last());
        let mid = ledger_after_reports(ledger, network, reports.drop_last());
        lemma_final_state_is_kept(mid, network, reports.last());
    }
}

/// Polling a transaction that is final already does nothing: the ledger
/// stays as it is and no notice is made.
pub proof fn lemma_polling_final_transaction_is_noop(
    ledger: LedgerView,
    name: Seq<char>,
    platform: Option<Seq<char>>,
    network: Network,
    report: ReportView,
    now: Timestamp,
)
    requires
        report.tx_id < ledger.transactions.len(),
        is_final(ledger.transactions[report.tx_id as int].status),
    ensures
        ledger_after_report(ledger, network, report) == ledger,
        notice_after_report(ledger, name, platform, network, report, now) is None,
{
}

/// Taking in the same report a second time changes nothing and makes no
/// second notice.
pub proof fn lemma_polling_is_idempotent(
    ledger: LedgerView,
    name: Seq<char>,
    platform: Option<Seq<char>>,
    network: Network,
    report: ReportView,
    now: Timestamp,
    later: Timestamp,
)
    ensures
        ({
            let once = ledger_after_report(ledger, network, report);
            &&& ledger_after_report(once, network, report) == once
            &&& !(finding(ledger, network, report) is Skip) ==> notice_after_report(
                once,
                name,
                platform,
                network,
                report,
                later,
            ) is None
        }),
{
}

/// The answer to handing a transaction to the chain never brings a
/// transaction back to unsent, and a transaction that was accepted is unsent
/// no longer: no later pass hands it to the chain again.
pub proof fn lemma_submitted_is_not_sent_again(
    ledger: LedgerView,
    tx: usize,
    hash: Option<Seq<char>>,
)
    ensures
        ({
            let after = ledger_after_broadcast(ledger, tx, hash);
            &&& after.transactions.len() == ledger.transactions.len()
            &&& forall|t: int|
                0 <= t < ledger.transactions.len() && !((
                #[trigger] ledger.transactions[t]).status is Unsent)
                    ==> after.transactions[t] == ledger.transactions[t]
            &&& ledger.tx_in(tx, TxStatus::Unsent) && hash is Some ==> {
                &&& broadcast_step(ledger, tx, hash) == BroadcastStep::Submitted
                &&& after.tx_in(tx, TxStatus::Submitted)
                &&& after.transactions[tx as int].hash == hash
            }
        }),
{
}

/// A change that keeps every amount keeps the total.
proof fn lemma_total_of_changed(s: Seq<ObligationView>, f: spec_fn(ObligationView) -> ObligationView)
    requires
        forall|o: ObligationView| (#[trigger] f(o)).amount == o.amount,
    ensures
        total_amount(s.map_values(f)) == total_amount(s),
    decreases s.len(),
{
    if s.len() > 0 {
        lemma_total_of_changed(s.drop_last(), f);
        assert(s.map_values(f).drop_last() =~= s.drop_last().map_values(f));
    }
}

/// A transaction that went through and carries obligations yields exactly
/// one notice, for the whole batch: it lists the order of every obligation
/// that the transaction carries, oldest first. Details that the chain client
/// verified are passed on as they are. Where it supplied none, the notice is
/// made all the same, and its amount is the sum of the amounts of all the
/// obligations that the transaction carries.
pub proof fn lemma_one_notice_for_a_batch(
    ledger: LedgerView,
    name: Seq<char>,
    platform: Seq<char>,
    network: Network,
    report: ReportView,
    now: Timestamp,
)
    requires
        ledger.wf(),
        finding(ledger, network, report) is Success,
        !(ledger.transactions[report.tx_id as int].kind is Faucet),
        ledger.obligations_of(report.tx_id).len() > 0,
    ensures
        ({
            let carried = ledger.obligations_of(report.tx_id);
            let notice = notice_after_report(ledger, name, Some(platform), network, report, now);
            &&& notice is Some
            &&& notice->0.driver_name == name
            &&& notice->0.platform == platform
            &&& notice->0.order_ids == order_ids_of(carried)
            &&& Some(notice->0.tx_hash) == notice_hash(
                ledger.transactions[report.tx_id as int].hash->0,
            )
            &&& report.verified is Some ==> notice->0.details == report.verified->0
            &&& report.verified is None ==> {
                &&& notice->0.details.amount == total_amount(carried)
                &&& notice->0.details.date == Some(now)
            }
        }),
{
    let tx = report.tx_id;
    let hash = ledger.transactions[tx as int].hash->0;
    let after = ledger.after_success(tx);
    let carried = ledger.obligations_of(tx);
    let f = |o: ObligationView|
        if o.tx_id == Some(tx) && o.status is Sent {
            ObligationView { status: ObligationStatus::Confirmed, ..o }
        } else {
            o
        };
    lemma_filter_of_changed(ledger.obligations, f, bound_to(tx));
    assert(after.obligations_of(tx) == carried.map_values(f));
    lemma_total_of_changed(carried, f);
    assert(order_ids_of(carried.map_values(f)) =~= order_ids_of(carried));
    // The oldest carried obligation is found under the transaction's hash.
    ledger.obligations.lemma_filter_contains_rev(bound_to(tx), carried[0]);
    ledger.obligations.lemma_filter_pred(bound_to(tx), 0);
    let i = choose|i: int| 0 <= i < ledger.obligations.len() && ledger.obligations[i] == carried[0];
    assert(ledger.sound(ledger.obligations[i]));
    assert(after.obligations[i] == f(ledger.obligations[i]));
    assert(after.carried_under(hash)(after.obligations[i]));
    lemma_first_where_exists(after.obligations, after.carried_under(hash), i);
    assert(chain_hash(hash) is Some);
    assert(notice_hash(hash) is Some);
}

/// A transaction that was reverted takes every obligation that it carries
/// with it: each of them has failed, the transaction is marked failed, every
/// other obligation and transaction is left as it was, and no notice is
/// made.
pub proof fn lemma_revert_fails_every_obligation(
    ledger: LedgerView,
    name: Seq<char>,
    platform: Option<Seq<char>>,
    network: Network,
    report: ReportView,
    now: Timestamp,
)
    requires
        finding(ledger, network, report) is Revert,
    ensures
        ({
            let after = ledger_after_report(ledger, network, report);
            &&& after.tx_in(report.tx_id, TxStatus::ConfirmedFailure)
            &&& after.obligations.len() == ledger.obligations.len()
            &&& forall|i: int|
                0 <= i < ledger.obligations.len() ==> if (#[trigger] ledger.obligations[i]).tx_id
                    == Some(report.tx_id) {
                    after.obligations[i].status is Failed
                } else {
                    after.obligations[i] == ledger.obligations[i]
                }
            &&& forall|t: int|
                0 <= t < ledger.transactions.len() && t != report.tx_id
                    ==> #[trigger] after.transactions[t] == ledger.transactions[t]
            &&& notice_after_report(ledger, name, platform, network, report, now) is None
        }),
{
}

/// A report that does not find the transaction finalized changes nothing
/// and makes no notice: the transaction is looked at again in a later pass.
pub proof fn lemma_unsettled_report_changes_nothing(
    ledger: LedgerView,
    name: Seq<char>,
    platform: Option<Seq<char>>,
    network: Network,
    report: ReportView,
    now: Timestamp,
)
    requires
        finding(ledger, network, report) is Skip,
    ensures
        ledger_after_report(ledger, network, report) == ledger,
        notice_after_report(ledger, name, platform, network, report, now) is None,
{
}

/// Where the hash of a transaction that went through is carried by no other
/// transaction, the details that are made up for its notice name the sender
/// and the recipient of the oldest obligation that the transaction carries.
pub proof fn lemma_made_up_details_follow_the_oldest(
    ledger: LedgerView,
    name: Seq<char>,
    platform: Seq<char>,
    network: Network,
    report: ReportView,
    now: Timestamp,
)
    requires
        ledger.wf(),
        finding(ledger, network, report) is Success,
        !(ledger.transactions[report.tx_id as int].kind is Faucet),
        ledger.obligations_of(report.tx_id).len() > 0,
        report.verified is None,
        forall|t: int|
            0 <= t < ledger.transactions.len() && t != report.tx_id ==> (
            #[trigger] ledger.transactions[t]).hash != ledger.transactions[report.tx_id as int].hash,
    ensures
        ({
            let oldest = ledger.obligations_of(report.tx_id)[0];
            let notice = notice_after_report(ledger, name, Some(platform), network, report, now);
            &&& notice is Some
            &&& notice->0.details.sender == oldest.sender
            &&& notice->0.details.recipient == oldest.recipient
        }),
{
    lemma_one_notice_for_a_batch(ledger, name, platform, network, report, now);
    let tx = report.tx_id;
    let hash = ledger.transactions[tx as int].hash->0;
    let after = ledger.after_success(tx);
    let carried = ledger.obligations_of(tx);
    let p = bound_to(tx);
    let q = after.carried_under(hash);
    ledger.obligations.lemma_filter_contains_rev(p, carried[0]);
    ledger.obligations.lemma_filter_pred(p, 0);
    let some = choose|i: int| 0 <= i < ledger.obligations.len() && ledger.obligations[i] == carried[0];
    let first = lemma_first_index(ledger.obligations, p, some);
    lemma_filter_begins_with_first(ledger.obligations, p, first);
    assert(carried[0] == ledger.obligations[first]);
    // Under the one hash the same obligations are found, before and after.
    assert forall|j: int| 0 <= j < after.obligations.len() implies p(
        #[trigger] after.obligations[j],
    ) == q(after.obligations[j]) by {
        assert(ledger.sound(ledger.obligations[j]));
        assert(after.obligations[j].tx_id == ledger.obligations[j].tx_id);
        if after.obligations[j].tx_id is Some {
            let t = after.obligations[j].tx_id->0;
            assert(after.transactions[t as int].hash == ledger.transactions[t as int].hash);
        }
    }
    assert forall|j: int| 0 <= j < first implies !p(#[trigger] after.obligations[j]) by {
        assert(after.obligations[j].tx_id == ledger.obligations[j].tx_id);
        assert(!p(ledger.obligations[j]));
    }
    assert(after.obligations[first].tx_id == ledger.obligations[first].tx_id);
    lemma_first_where_finds_first(after.obligations, p, q, first);
    assert(after.obligations[first].sender == ledger.obligations[first].sender);
    assert(after.obligations[first].recipient == ledger.obligations[first].recipient);
}

/// Where verified details are not wanted, it makes no difference whether
/// they are supplied: the ledger and the notice come out the same. The
/// ledger never depends on them.
pub proof fn lemma_unwanted_details_make_no_difference(
    ledger: LedgerView,
    name: Seq<char>,
    platform: Option<Seq<char>>,
    network: Network,
    report: ReportView,
    now: Timestamp,
)
    ensures
        ({
            let bare = ReportView { verified: None, ..report };
            &&& ledger_after_report(ledger, network, report) == ledger_after_report(
                ledger,
                network,
                bare,
            )
            &&& (report.status is None || !report.payload_decoded || !details_wanted(
                ledger,
                platform,
                network,
                report.tx_id,
                report.status->0,
            )) ==> notice_after_report(ledger, name, platform, network, report, now)
                == notice_after_report(ledger, name, platform, network, bare, now)
        }),
{
    let tx = report.tx_id;
    if finding(ledger, network, report) is Success {
        let f = |o: ObligationView|
            if o.tx_id == Some(tx) && o.status is Sent {
                ObligationView { status: ObligationStatus::Confirmed, ..o }
            } else {
                o
            };
        lemma_filter_of_changed(ledger.obligations, f, bound_to(tx));
        assert(ledger.after_success(tx).obligations_of(tx) == ledger.obligations_of(tx).map_values(
            f,
        ));
    }
}

/// The transactions that a filter keeps of a sound ledger stand in the order
/// of their ids: each is one of the ledger's, and none comes twice.
proof fn lemma_kept_in_order(
    ledger: LedgerView,
    n: int,
    p: spec_fn(TransactionView) -> bool,
)
    requires
        ledger.wf(),
        0 <= n <= ledger.transactions.len(),
    ensures
        ({
            let kept = ledger.transactions.take(n).filter(p);
            &&& forall|k: int|
                0 <= k < kept.len() ==> 0 <= (#[trigger] kept[k]).tx_id < n && p(kept[k])
                    && ledger.transactions[kept[k].tx_id as int] == kept[k]
            &&& forall|j: int, k: int|
                0 <= j < k < kept.len() ==> (#[trigger] kept[j]).tx_id < (#[trigger] kept[k]).tx_id
        }),
    decreases n,
{
    if n > 0 {
        lemma_kept_in_order(ledger, n - 1, p);
        lemma_filter_step(ledger.transactions, n - 1, p);
        assert(ledger.transactions[n - 1].tx_id == n - 1);
    } else {
        assert(ledger.transactions.take(0).filter(p).len() == 0) by {
            reveal(Seq::filter);
        }
    }
}

/// What a submission pass comes to: every transaction of the network that
/// was unsent is submitted under the hash that the chain assigned, or is
/// still unsent where the chain did not accept it; nothing else changes. A
/// transaction is handed to the chain once in a pass, and one that was
/// accepted is handed over in no later pass.
pub proof fn lemma_submission_pass(
    ledger: LedgerView,
    network: Network,
    hashes: Seq<Option<Seq<char>>>,
)
    requires
        ledger.wf(),
        hashes.len() == ledger.unsent_transactions(network).len(),
    ensures
        ({
            let unsent = ledger.unsent_transactions(network);
            let after = after_broadcasts(ledger, unsent, hashes);
            &&& after.obligations == ledger.obligations
            &&& after.transactions.len() == ledger.transactions.len()
            &&& forall|j: int, k: int|
                0 <= j < k < unsent.len() ==> (#[trigger] unsent[j]).tx_id != (
                #[trigger] unsent[k]).tx_id
            &&& forall|k: int|
                0 <= k < unsent.len() ==> after.transactions[(#[trigger] unsent[k]).tx_id as int]
                    == submitted_as(unsent[k], hashes[k])
            &&& forall|t: int|
                0 <= t < ledger.transactions.len() && !in_status(network, TxStatus::Unsent)(
                    #[trigger] ledger.transactions[t],
                ) ==> after.transactions[t] == ledger.transactions[t]
            &&& forall|k: int|
                0 <= k < unsent.len() && (#[trigger] hashes[k]) is Some
                    ==> !after.unsent_transactions(network).contains(
                    after.transactions[unsent[k].tx_id as int],
                )
        }),
{
    let unsent = ledger.unsent_transactions(network);
    let p = in_status(network, TxStatus::Unsent);
    assert(ledger.transactions.take(ledger.transactions.len() as int) =~= ledger.transactions);
    lemma_kept_in_order(ledger, ledger.transactions.len() as int, p);
    lemma_submission_steps(ledger, network, hashes, unsent.len() as int);
    assert(unsent.take(unsent.len() as int) =~= unsent);
    assert(hashes.take(unsent.len() as int) =~= hashes);
    let after = after_broadcasts(ledger, unsent, hashes);
    assert forall|k: int| 0 <= k < unsent.len() && (#[trigger] hashes[k]) is Some implies !after.unsent_transactions(
        network,
    ).contains(after.transactions[unsent[k].tx_id as int]) by {
        let tx = after.transactions[unsent[k].tx_id as int];
        assert(tx.status is Submitted);
        if after.transactions.filter(p).contains(tx) {
            after.transactions.lemma_filter_contains_rev(p, tx);
            let i = choose|i: int| 0 <= i < after.transactions.filter(p).len() && after.transactions.filter(p)[i] == tx;
            after.transactions.lemma_filter_pred(p, i);
        }
    }
}

/// The transaction as the answer of the chain leaves it.
pub open spec fn submitted_as(tx: TransactionView, hash: Option<Seq<char>>) -> TransactionView {
    match hash {
        Some(h) => TransactionView { hash: Some(h), status: TxStatus::Submitted, ..tx },
        None => tx,
    }
}

/// The first `n` answers of a submission pass, taken in.
proof fn lemma_submission_steps(
    ledger: LedgerView,
    network: Network,
    hashes: Seq<Option<Seq<char>>>,
    n: int,
)
    requires
        ledger.wf(),
        hashes.len() == ledger.unsent_transactions(network).len(),
        0 <= n <= hashes.len(),
        ({
            let unsent = ledger.unsent_transactions(network);
            &&& forall|k: int|
                0 <= k < unsent.len() ==> 0 <= (#[trigger] unsent[k]).tx_id
                    < ledger.transactions.len() && in_status(network, TxStatus::Unsent)(unsent[k])
                    && ledger.transactions[unsent[k].tx_id as int] == unsent[k]
            &&& forall|j: int, k: int|
                0 <= j < k < unsent.len() ==> (#[trigger] unsent[j]).tx_id < (
                #[trigger] unsent[k]).tx_id
        }),
    ensures
        ({
            let unsent = ledger.unsent_transactions(network);
            let after = after_broadcasts(ledger, unsent.take(n), hashes.take(n));
            &&& after.obligations == ledger.obligations
            &&& after.transactions.len() == ledger.transactions.len()
            &&& forall|k: int|
                0 <= k < n ==> after.transactions[(#[trigger] unsent[k]).tx_id as int]
                    == submitted_as(unsent[k], hashes[k])
            &&& forall|k: int|
                n <= k < unsent.len() ==> after.transactions[(#[trigger] unsent[k]).tx_id as int]
                    == unsent[k]
            &&& forall|t: int|
                0 <= t < ledger.transactions.len() && !in_status(network, TxStatus::Unsent)(
                    #[trigger] ledger.transactions[t],
                ) ==> after.transactions[t] == ledger.transactions[t]
        }),
    decreases n,
{
    let unsent = ledger.unsent_transactions(network);
    if n > 0 {
        lemma_submission_steps(ledger, network, hashes, n - 1);
        assert(unsent.take(n).drop_last() =~= unsent.take(n - 1));
        assert(hashes.take(n).drop_last() =~= hashes.take(n - 1));
        assert(unsent.take(n).last() == unsent[n - 1]);
        assert(hashes.take(n).last() == hashes[n - 1]);
        let earlier = after_broadcasts(ledger, unsent.take(n - 1), hashes.take(n - 1));
        let after = after_broadcasts(ledger, unsent.take(n), hashes.take(n));
        let id = unsent[n - 1].tx_id;
        assert(earlier.transactions[id as int] == unsent[n - 1]);
        assert forall|k: int| 0 <= k < n implies after.transactions[(
        #[trigger] unsent[k]).tx_id as int] == submitted_as(unsent[k], hashes[k]) by {
            if k < n - 1 {
                assert(unsent[k].tx_id != id);
            }
        }
        assert forall|k: int| n <= k < unsent.len() implies after.transactions[(
        #[trigger] unsent[k]).tx_id as int] == unsent[k] by {
            assert(unsent[k].tx_id != id);
        }
    } else {
        assert(unsent.take(0) =~= Seq::empty());
    }
}

} // verus!
