//! The confirmation poller: drives submitted transactions to a final state
//! from what the chain reports of them.

use crate::clock::{utc_now, Timestamp};
use crate::ledger::Ledger;
use crate::model::{
    obligation_views, text_views, Network, ObligationStatus, ObligationView, PaymentObligation,
    TxKind, TxStatus,
};
use crate::settlement::{
    collect_order_ids, details_view, first_under, name_view, notice_for, notice_view,
    notice_views, order_ids_of, settlement_notice, ChainStatus, ChainVerdict, DetailsView,
    NoticeView, PaymentDetails, SettlementNotice,
};
use crate::state::{bound_to, LedgerView};
use crate::txhash::{chain_hash, parse_chain_hash};
use vstd::prelude::*;

verus! {

/// What was learnt about one submitted transaction in a pass.
#[derive(Debug, PartialEq, Eq)]
pub struct ChainReport {
    /// The transaction that the report is about.
    pub tx_id: usize,
    /// Whether the call data embedded in the transaction's payload could be
    /// decoded.
    pub payload_decoded: bool,
    /// The chain's observations, absent where the query failed.
    pub status: Option<ChainStatus>,
    /// The transfer as the chain client verified it, absent where it could
    /// not or was not asked.
    pub verified: Option<PaymentDetails>,
}

/// A report as a mathematical value.
pub struct ReportView {
    pub tx_id: usize,
    pub payload_decoded: bool,
    pub status: Option<ChainStatus>,
    pub verified: Option<DetailsView>,
}

impl View for ChainReport {
    type V = ReportView;

    open spec fn view(&self) -> ReportView {
        ReportView {
            tx_id: self.tx_id,
            payload_decoded: self.payload_decoded,
            status: self.status,
            verified: details_view(self.verified),
        }
    }
}

/// The views of a sequence of reports, in the same order.
pub open spec fn report_views(s: Seq<ChainReport>) -> Seq<ReportView> {
    s.map_values(|r: ChainReport| r@)
}

/// Why a report left the ledger as it was.
#[derive(Clone, Copy, Debug, PartialEq, Eq, Structural)]
pub enum SkipReason {
    /// The transaction is not recorded, not on this network, or not waiting
    /// for the chain's verdict.
    NotAwaited,
    /// The call data in the payload could not be decoded.
    PayloadUndecodable,
    /// The recorded hash is not the text of 32 bytes.
    MalformedHash,
    /// The chain could not be asked.
    StatusUnknown,
    /// The chain does not know the transaction.
    Absent,
    /// The transaction is in no block yet.
    Pending,
    /// The transaction is in a block that is not deep enough yet.
    AwaitingConfirmations,
}

/// What a report amounts to.
#[derive(Clone, Copy, Debug, PartialEq, Eq, Structural)]
pub enum Finding {
    /// Nothing to do now; the transaction is looked at again in a later pass.
    Skip(SkipReason),
    /// The transaction is final and went through.
    Success,
    /// The transaction is final and was reverted.
    Revert,
}

/// What a report about a transaction amounts to, the ledger being as given.
/// The checks are made in a fixed order, and the first that fails decides.
pub open spec fn finding(ledger: LedgerView, network: Network, report: ReportView) -> Finding {
    if !ledger.tx_in(report.tx_id, TxStatus::Submitted) {
        Finding::Skip(SkipReason::NotAwaited)
    } else {
        let tx = ledger.transactions[report.tx_id as int];
        if tx.network != network || tx.hash is None {
            Finding::Skip(SkipReason::NotAwaited)
        } else if !report.payload_decoded {
            Finding::Skip(SkipReason::PayloadUndecodable)
        } else if chain_hash(tx.hash->0) is None {
            Finding::Skip(SkipReason::MalformedHash)
        } else if report.status is None {
            Finding::Skip(SkipReason::StatusUnknown)
        } else {
            match report.status->0.verdict_of() {
                ChainVerdict::Absent => Finding::Skip(SkipReason::Absent),
                ChainVerdict::Pending => Finding::Skip(SkipReason::Pending),
                ChainVerdict::AwaitingConfirmations => Finding::Skip(
                    SkipReason::AwaitingConfirmations,
                ),
                ChainVerdict::Succeeded => Finding::Success,
                ChainVerdict::Reverted => Finding::Revert,
            }
        }
    }
}

/// The ledger after a report was taken in.
pub open spec fn ledger_after_report(
    ledger: LedgerView,
    network: Network,
    report: ReportView,
) -> LedgerView {
    match finding(ledger, network, report) {
        Finding::Skip(_) => ledger,
        Finding::Success => ledger.after_success(report.tx_id),
        Finding::Revert => ledger.after_revert(report.tx_id),
    }
}

/// The notice that a report calls for, if any: none unless the transaction
/// went through, and then as `notice_for` says, over the obligations that
/// the transaction carries.
pub open spec fn notice_after_report(
    ledger: LedgerView,
    name: Seq<char>,
    platform: Option<Seq<char>>,
    network: Network,
    report: ReportView,
    now: Timestamp,
) -> Option<NoticeView> {
    if finding(ledger, network, report) is Success {
        let tx = ledger.transactions[report.tx_id as int];
        let after = ledger.after_success(report.tx_id);
        notice_for(
            name,
            platform,
            tx.kind,
            tx.hash,
            after.obligations_of(report.tx_id),
            report.verified,
            first_under(after, tx.hash),
            now,
        )
    } else {
        None
    }
}

/// Why the chain need not be asked about transaction `tx` at all, if there
/// is such a reason: the transaction is not awaited on this network, or its
/// hash cannot be read.
pub open spec fn poll_refusal(ledger: LedgerView, network: Network, tx: usize) -> Option<
    SkipReason,
> {
    if !ledger.tx_in(tx, TxStatus::Submitted) {
        Some(SkipReason::NotAwaited)
    } else if ledger.transactions[tx as int].network != network
        || ledger.transactions[tx as int].hash is None {
        Some(SkipReason::NotAwaited)
    } else if chain_hash(ledger.transactions[tx as int].hash->0) is None {
        Some(SkipReason::MalformedHash)
    } else {
        None
    }
}

/// What to ask the chain about.
#[derive(Debug, PartialEq, Eq)]
pub struct PollTarget {
    pub tx_id: usize,
    /// The hash as the ledger keeps it.
    pub hash_text: String,
    /// The hash as its 32 bytes.
    pub hash: Vec<u8>,
    /// The payload whose call data is to be decoded.
    pub payload: Vec<u8>,
}

/// What to ask the chain about for transaction `tx_id`, or the reason why
/// it need not be asked.
pub fn poll_target(ledger: &Ledger, network: Network, tx_id: usize) -> (r: Result<
    PollTarget,
    SkipReason,
>)
    ensures
        r is Err <==> poll_refusal(ledger@, network, tx_id) is Some,
        r is Err ==> Some(r.unwrap_err()) == poll_refusal(ledger@, network, tx_id),
        r is Ok ==> {
            let tx = ledger@.transactions[tx_id as int];
            &&& r.unwrap().tx_id == tx_id
            &&& Some(r.unwrap().hash_text@) == tx.hash
            &&& Some(r.unwrap().hash@) == chain_hash(tx.hash->0)
            &&& r.unwrap().payload@ == tx.encoded
        },
{
    let tx = match ledger.transaction(tx_id) {
        Some(tx) => tx,
        None => {
            return Err(SkipReason::NotAwaited);
        },
    };
    if tx.status != TxStatus::Submitted || tx.network != network {
        return Err(SkipReason::NotAwaited);
    }
    match tx.hash {
        Some(hash_text) => match parse_chain_hash(hash_text.as_str()) {
            Some(hash) => Ok(PollTarget { tx_id, hash_text, hash, payload: tx.encoded }),
            None => Err(SkipReason::MalformedHash),
        },
        None => Err(SkipReason::NotAwaited),
    }
}

/// Details that the chain client verifies would be used: the transaction
/// is awaited, the chain reports that it went through, and it calls for a
/// notice.
pub open spec fn details_wanted(
    ledger: LedgerView,
    platform: Option<Seq<char>>,
    network: Network,
    tx: usize,
    status: ChainStatus,
) -> bool {
    &&& poll_refusal(ledger, network, tx) is None
    &&& status.verdict_of() is Succeeded
    &&& !(ledger.transactions[tx as int].kind is Faucet)
    &&& !(ledger.transactions[tx as int].kind is Transfer && ledger.obligations_of(tx).len() == 0)
    &&& platform is Some
}

/// Whether the chain client is to be asked to verify the transfer of
/// transaction `tx_id`, the chain having reported `status` of it.
pub fn wants_details(
    ledger: &Ledger,
    platform: Option<&str>,
    network: Network,
    tx_id: usize,
    status: &ChainStatus,
) -> (r: bool)
    ensures
        r == details_wanted(ledger@, name_view(platform), network, tx_id, *status),
{
    match poll_target(ledger, network, tx_id) {
        Err(_) => false,
        Ok(_) => {
            let tx = match ledger.transaction(tx_id) {
                Some(tx) => tx,
                None => {
                    return false;
                },
            };
            if platform.is_none() {
                return false;
            }
            match status.verdict() {
                ChainVerdict::Succeeded => match tx.kind {
                    TxKind::Faucet => false,
                    TxKind::Transfer => {
                        let carried = ledger.obligations_of(tx_id);
                        assert(obligation_views(carried@).len() == carried@.len());
                        carried.len() > 0
                    },
                    TxKind::Other => true,
                },
                _ => false,
            }
        },
    }
}

/// What taking in a report came to.
#[derive(Debug, PartialEq, Eq)]
pub enum ConfirmOutcome {
    /// The ledger was left as it was.
    Skipped(SkipReason),
    /// The transaction was confirmed; the notice is to be sent, if there is
    /// one.
    Settled(Option<SettlementNotice>),
    /// The transaction was marked failed, and so were the obligations with
    /// these order ids.
    Reverted(Vec<String>),
}

/// An outcome as a mathematical value.
pub enum OutcomeView {
    Skipped(SkipReason),
    Settled(Option<NoticeView>),
    Reverted(Seq<Seq<char>>),
}

impl View for ConfirmOutcome {
    type V = OutcomeView;

    open spec fn view(&self) -> OutcomeView {
        match self {
            ConfirmOutcome::Skipped(reason) => OutcomeView::Skipped(*reason),
            ConfirmOutcome::Settled(notice) => OutcomeView::Settled(notice_view(*notice)),
            ConfirmOutcome::Reverted(order_ids) => OutcomeView::Reverted(text_views(order_ids@)),
        }
    }
}

/// What taking in a report comes to.
pub open spec fn outcome_of(
    ledger: LedgerView,
    name: Seq<char>,
    platform: Option<Seq<char>>,
    network: Network,
    report: ReportView,
    now: Timestamp,
) -> OutcomeView {
    match finding(ledger, network, report) {
        Finding::Skip(reason) => OutcomeView::Skipped(reason),
        Finding::Success => OutcomeView::Settled(
            notice_after_report(ledger, name, platform, network, report, now),
        ),
        Finding::Revert => OutcomeView::Reverted(
            order_ids_of(ledger.obligations_of(report.tx_id)),
        ),
    }
}

/// The obligation with its status set to failed.
pub open spec fn given_up(o: ObligationView) -> ObligationView {
    ObligationView { status: ObligationStatus::Failed, ..o }
}

/// Gives up, one by one, the obligations that a reverted transaction
/// carries.
fn give_up_all(ledger: &mut Ledger, tx_id: usize, payments: &Vec<PaymentObligation>)
    requires
        old(ledger).wf(),
        old(ledger)@.tx_in(tx_id, TxStatus::ConfirmedFailure),
        obligation_views(payments@) == old(ledger)@.obligations_of(tx_id),
    ensures
        final(ledger).wf(),
        final(ledger)@.transactions == old(ledger)@.transactions,
        final(ledger)@.obligations == old(ledger)@.obligations.map_values(
            |o: ObligationView|
                if o.tx_id == Some(tx_id) {
                    given_up(o)
                } else {
                    o
                },
        ),
{
    let ghost mid = ledger@;
    let ghost carried = obligation_views(payments@);
    let mut k: usize = 0;
    while k < payments.len()
        invariant
            mid.wf(),
            mid.tx_in(tx_id, TxStatus::ConfirmedFailure),
            carried == obligation_views(payments@),
            carried == mid.obligations.filter(bound_to(tx_id)),
            k <= payments@.len(),
            ledger.wf(),
            ledger@.transactions == mid.transactions,
            ledger@.obligations.len() == mid.obligations.len(),
            forall|j: int|
                0 <= j < mid.obligations.len() ==> ledger@.obligations[j] == if (
                #[trigger] mid.obligations[j]).tx_id == Some(tx_id) && order_ids_of(
                    carried.take(k as int),
                ).contains(mid.obligations[j].order_id) {
                    given_up(mid.obligations[j])
                } else {
                    mid.obligations[j]
                },
        decreases payments@.len() - k,
    {
        let ghost cur = ledger@;
        let ghost id = payments@[k as int].order_id@;
        let ghost done = order_ids_of(carried.take(k as int));
        let ghost done_next = order_ids_of(carried.take(k + 1));
        proof {
            assert(carried[k as int] == payments@[k as int]@);
            assert(mid.obligations.filter(bound_to(tx_id)).contains(carried[k as int]));
            mid.obligations.lemma_filter_contains_rev(bound_to(tx_id), carried[k as int]);
            mid.obligations.lemma_filter_pred(bound_to(tx_id), k as int);
        }
        let ghost jk = choose|j: int|
            0 <= j < mid.obligations.len() && mid.obligations[j] == carried[k as int];
        proof {
            assert(mid.obligations[jk].order_id == id);
            assert(mid.obligations[jk].tx_id == Some(tx_id));
            assert(mid.sound(mid.obligations[jk]));
            assert(cur.obligations[jk].order_id == id);
            assert(cur.has_order(id));
            let c = cur.order_index(id);
            assert(cur.obligations[c].order_id == id);
            assert(c == jk);
            assert(!(cur.obligations[jk].status is Confirmed));
            assert(!(cur.obligations[jk].status is Pending));
        }
        let marked = ledger.mark_obligation_failed(payments[k].order_id.as_str());
        proof {
            assert(marked is Ok);
            assert(done_next =~= done.push(id)) by {
                assert(carried.take(k + 1) =~= carried.take(k as int).push(carried[k as int]));
            }
            assert(ledger@.obligations[jk] == given_up(mid.obligations[jk]));
            assert forall|j: int| 0 <= j < mid.obligations.len() implies ledger@.obligations[j]
                == if (#[trigger] mid.obligations[j]).tx_id == Some(tx_id) && done_next.contains(
                mid.obligations[j].order_id,
            ) {
                given_up(mid.obligations[j])
            } else {
                mid.obligations[j]
            } by {
                if j == jk {
                    assert(done_next[k as int] == id);
                } else {
                    assert(ledger@.obligations[j] == cur.obligations[j]);
                    assert(mid.obligations[j].order_id != id);
                    if done_next.contains(mid.obligations[j].order_id) {
                        let m = choose|m: int|
                            0 <= m < done_next.len() && done_next[m] == mid.obligations[j].order_id;
                        assert(m != k);
                        assert(done[m] == mid.obligations[j].order_id);
                    }
                    if done.contains(mid.obligations[j].order_id) {
                        let m = choose|m: int|
                            0 <= m < done.len() && done[m] == mid.obligations[j].order_id;
                        assert(done_next[m] == mid.obligations[j].order_id);
                    }
                }
            }
        }
        k = k + 1;
    }
    proof {
        assert(carried.take(k as int) =~= carried);
        let all = order_ids_of(carried);
        assert forall|j: int| 0 <= j < mid.obligations.len() implies #[trigger] ledger@.obligations[j]
            == if mid.obligations[j].tx_id == Some(tx_id) {
            given_up(mid.obligations[j])
        } else {
            mid.obligations[j]
        } by {
            if mid.obligations[j].tx_id == Some(tx_id) {
                mid.obligations.lemma_filter_contains(bound_to(tx_id), j);
                let m = choose|m: int|
                    0 <= m < carried.len() && carried[m] == mid.obligations[j];
                assert(all[m] == mid.obligations[j].order_id);
            }
        }
        assert(ledger@.obligations =~= mid.obligations.map_values(
            |o: ObligationView|
                if o.tx_id == Some(tx_id) {
                    given_up(o)
                } else {
                    o
                },
        ));
    }
}

/// Takes in what the chain reported of one transaction.
///
/// A transaction that the report does not settle (it is not awaited, its
/// payload or hash cannot be read, the chain could not be asked, or the chain
/// has not finalized it) leaves the ledger as it was. One that went through
/// is confirmed together with the obligations it carries, and the notice for
/// the settlement bus is handed back. One that was reverted is marked failed
/// together with every obligation it carries, and no notice is made.
pub fn confirm_transaction(
    ledger: &mut Ledger,
    name: &str,
    platform: Option<&str>,
    network: Network,
    report: &ChainReport,
    now: Timestamp,
) -> (r: ConfirmOutcome)
    requires
        old(ledger).wf(),
    ensures
        final(ledger).wf(),
        final(ledger)@ == ledger_after_report(old(ledger)@, network, report@),
        r@ == outcome_of(old(ledger)@, name@, name_view(platform), network, report@, now),
{
    let ghost before = ledger@;
    let tx = match ledger.transaction(report.tx_id) {
        Some(tx) => tx,
        None => {
            return ConfirmOutcome::Skipped(SkipReason::NotAwaited);
        },
    };
    if tx.status != TxStatus::Submitted || tx.network != network {
        return ConfirmOutcome::Skipped(SkipReason::NotAwaited);
    }
    if tx.hash.is_none() {
        return ConfirmOutcome::Skipped(SkipReason::NotAwaited);
    }
    if !report.payload_decoded {
        return ConfirmOutcome::Skipped(SkipReason::PayloadUndecodable);
    }
    let readable: bool = match &tx.hash {
        Some(hash) => parse_chain_hash(hash.as_str()).is_some(),
        None => false,
    };
    if !readable {
        return ConfirmOutcome::Skipped(SkipReason::MalformedHash);
    }
    let status = match report.status {
        Some(status) => status,
        None => {
            return ConfirmOutcome::Skipped(SkipReason::StatusUnknown);
        },
    };
    match status.verdict() {
        ChainVerdict::Absent => ConfirmOutcome::Skipped(SkipReason::Absent),
        ChainVerdict::Pending => ConfirmOutcome::Skipped(SkipReason::Pending),
        ChainVerdict::AwaitingConfirmations => ConfirmOutcome::Skipped(
            SkipReason::AwaitingConfirmations,
        ),
        ChainVerdict::Succeeded => {
            match ledger.mark_confirmed_success(report.tx_id) {
                Ok(payments) => ConfirmOutcome::Settled(
                    settlement_notice(
                        ledger,
                        name,
                        platform,
                        &tx,
                        &payments,
                        &report.verified,
                        now,
                    ),
                ),
                Err(_) => ConfirmOutcome::Skipped(SkipReason::NotAwaited),
            }
        },
        ChainVerdict::Reverted => {
            match ledger.mark_confirmed_failure(report.tx_id) {
                Ok(payments) => {
                    give_up_all(ledger, report.tx_id, &payments);
                    assert(ledger@ =~= before.after_revert(report.tx_id));
                    ConfirmOutcome::Reverted(collect_order_ids(&payments))
                },
                Err(_) => ConfirmOutcome::Skipped(SkipReason::NotAwaited),
            }
        },
    }
}

/// The ledger after a pass took in the reports one after the other.
pub open spec fn ledger_after_reports(
    ledger: LedgerView,
    network: Network,
    reports: Seq<ReportView>,
) -> LedgerView
    decreases reports.len(),
{
    if reports.len() == 0 {
        ledger
    } else {
        ledger_after_report(
            ledger_after_reports(ledger, network, reports.drop_last()),
            network,
            reports.last(),
        )
    }
}

/// The notices that a pass over the reports calls for, in the order of the
/// reports: for each report the one notice that it calls for, if any, the
/// ledger being as the reports before it left it.
pub open spec fn notices_after_reports(
    ledger: LedgerView,
    name: Seq<char>,
    platform: Option<Seq<char>>,
    network: Network,
    reports: Seq<ReportView>,
    now: Timestamp,
) -> Seq<NoticeView>
    decreases reports.len(),
{
    if reports.len() == 0 {
        Seq::empty()
    } else {
        let earlier = notices_after_reports(
            ledger,
            name,
            platform,
            network,
            reports.drop_last(),
            now,
        );
        match notice_after_report(
            ledger_after_reports(ledger, network, reports.drop_last()),
            name,
            platform,
            network,
            reports.last(),
            now,
        ) {
            Some(notice) => earlier.push(notice),
            None => earlier,
        }
    }
}

/// One confirmation pass for `network` at the time `now`: takes in the
/// reports in their order and hands back the notices for the settlement bus.
/// A report that settles nothing does not stop the pass.
pub fn confirm_payments_at(
    ledger: &mut Ledger,
    name: &str,
    platform: Option<&str>,
    network: Network,
    reports: &Vec<ChainReport>,
    now: Timestamp,
) -> (notices: Vec<SettlementNotice>)
    requires
        old(ledger).wf(),
    ensures
        final(ledger).wf(),
        final(ledger)@ == ledger_after_reports(old(ledger)@, network, report_views(reports@)),
        notice_views(notices@) == notices_after_reports(
            old(ledger)@,
            name@,
            name_view(platform),
            network,
            report_views(reports@),
            now,
        ),
{
    let ghost before = ledger@;
    let ghost all = report_views(reports@);
    let mut notices: Vec<SettlementNotice> = Vec::new();
    let mut i: usize = 0;
    assert(all.take(0) =~= Seq::empty());
    while i < reports.len()
        invariant
            all == report_views(reports@),
            i <= reports@.len(),
            ledger.wf(),
            ledger@ == ledger_after_reports(before, network, all.take(i as int)),
            notice_views(notices@) =~= notices_after_reports(
                before,
                name@,
                name_view(platform),
                network,
                all.take(i as int),
                now,
            ),
        decreases reports@.len() - i,
    {
        assert(all.take(i + 1).drop_last() =~= all.take(i as int));
        assert(all.take(i + 1).last() == reports@[i as int]@);
        match confirm_transaction(ledger, name, platform, network, &reports[i], now) {
            ConfirmOutcome::Settled(Some(notice)) => {
                notices.push(notice);
            },
            _ => {},
        }
        i = i + 1;
    }
    assert(all.take(i as int) =~= all);
    notices
}

/// One confirmation pass for `network`, timed by the system clock. The
/// ledger ends as `confirm_payments_at` leaves it at any time; the notices
/// are those of `confirm_payments_at` at the time that the clock gave.
pub fn confirm_payments(
    ledger: &mut Ledger,
    name: &str,
    platform: Option<&str>,
    network: Network,
    reports: &Vec<ChainReport>,
) -> (notices: Vec<SettlementNotice>)
    requires
        old(ledger).wf(),
    ensures
        final(ledger).wf(),
        final(ledger)@ == ledger_after_reports(old(ledger)@, network, report_views(reports@)),
        exists|now: Timestamp|
            notice_views(notices@) == #[trigger] notices_after_reports(
                old(ledger)@,
                name@,
                name_view(platform),
                network,
                report_views(reports@),
                now,
            ),
{
    let now = utc_now();
    confirm_payments_at(ledger, name, platform, network, reports, now)
}

} // verus!
