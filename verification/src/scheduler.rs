//! The reconciliation scheduler: the stages of one pass over a network and
//! their order.
//!
//! A pass confirms first, then builds the payments of each account, then
//! hands unsent transactions to the chain. Confirming first lets the failure
//! of a reverted transaction reach its obligations before anything new is
//! built in the same pass; handing over last sends out what the pass built.

use crate::clock::{utc_now, Timestamp};
use crate::ledger::Ledger;
use crate::model::{Network, Transaction};
use crate::nonce::next_nonce_of;
use crate::poller::{
    confirm_payments_at, ledger_after_reports, notices_after_reports, report_views, ChainReport,
};
use crate::settlement::{name_view, notice_views, order_ids_of, SettlementNotice};
use crate::state::LedgerView;
use crate::submitter::{
    after_broadcasts, after_payments, built_views, pass_ran, process_payments_for_account_at,
    process_transactions, sent_hashes, sent_transactions, Attempt, Broadcast, BroadcastStep,
    TransferRequest,
};
use vstd::prelude::*;

verus! {

/// A stage of a reconciliation pass.
#[derive(Clone, Copy, Debug, PartialEq, Eq, Structural)]
pub enum Stage {
    /// Poll the chain about submitted transactions.
    Confirm,
    /// Build transactions for pending obligations, account by account.
    Pay,
    /// Hand unsent transactions to the chain.
    Submit,
}

/// The stage that follows `stage` in a pass; none after the last.
pub open spec fn stage_after(stage: Stage) -> Option<Stage> {
    match stage {
        Stage::Confirm => Some(Stage::Pay),
        Stage::Pay => Some(Stage::Submit),
        Stage::Submit => None,
    }
}

/// The stage that a pass begins with.
pub fn first_stage() -> (r: Stage)
    ensures
        r == Stage::Confirm,
{
    Stage::Confirm
}

/// The stage that follows `stage` in a pass; none after the last.
pub fn next_stage(stage: Stage) -> (r: Option<Stage>)
    ensures
        r == stage_after(stage),
{
    match stage {
        Stage::Confirm => Some(Stage::Pay),
        Stage::Pay => Some(Stage::Submit),
        Stage::Submit => None,
    }
}

/// An account whose payments a pass is to process, with the sequence number
/// that the chain expects next of it (absent where the chain could not be
/// asked).
#[derive(Debug, PartialEq, Eq)]
pub struct WatchedAccount {
    pub account: String,
    pub chain_nonce: Option<u64>,
}

/// What one pass did.
#[derive(Debug, PartialEq, Eq)]
pub struct PassRecord {
    /// The notices for the settlement bus, in the order of the reports.
    pub notices: Vec<SettlementNotice>,
    /// For each watched account, in their order, the attempts to build its
    /// payments.
    pub payments: Vec<Vec<Attempt>>,
    /// The transactions that were handed to the chain, oldest first.
    pub broadcasts: Vec<Broadcast>,
}

/// The attempts of each account as sequences.
pub open spec fn runs_of(payments: Seq<Vec<Attempt>>) -> Seq<Seq<Attempt>> {
    payments.map_values(|run: Vec<Attempt>| run@)
}

/// The ledger after the payments of one account were processed.
pub open spec fn ledger_after_account(
    ledger: LedgerView,
    network: Network,
    watched: WatchedAccount,
    attempts: Seq<Attempt>,
    now: Timestamp,
) -> LedgerView {
    match watched.chain_nonce {
        Some(chain_next) => after_payments(
            ledger,
            next_nonce_of(ledger, watched.account@, network, chain_next),
            order_ids_of(ledger.pending_obligations(watched.account@, network)),
            built_views(attempts),
            now,
        ).ledger,
        None => ledger,
    }
}

/// The payments of one account were processed as a payment pass should,
/// `attempts` being its record; without the chain's number nothing was
/// attempted.
pub open spec fn account_ran(
    ledger: LedgerView,
    network: Network,
    watched: WatchedAccount,
    attempts: Seq<Attempt>,
    now: Timestamp,
) -> bool {
    match watched.chain_nonce {
        Some(chain_next) => pass_ran(
            ledger,
            watched.account@,
            network,
            chain_next,
            attempts,
            ledger_after_account(ledger, network, watched, attempts, now),
            now,
        ),
        None => attempts.len() == 0,
    }
}

/// The ledger after the payments of the accounts were processed one account
/// after the other.
pub open spec fn ledger_after_accounts(
    ledger: LedgerView,
    network: Network,
    accounts: Seq<WatchedAccount>,
    runs: Seq<Seq<Attempt>>,
    now: Timestamp,
) -> LedgerView
    recommends
        accounts.len() == runs.len(),
    decreases accounts.len(),
{
    if accounts.len() == 0 {
        ledger
    } else {
        ledger_after_account(
            ledger_after_accounts(ledger, network, accounts.drop_last(), runs.drop_last(), now),
            network,
            accounts.last(),
            runs.last(),
            now,
        )
    }
}

/// The ledger when the `a`-th account's turn comes.
pub open spec fn ledger_before_account(
    ledger: LedgerView,
    network: Network,
    accounts: Seq<WatchedAccount>,
    runs: Seq<Seq<Attempt>>,
    a: int,
    now: Timestamp,
) -> LedgerView {
    ledger_after_accounts(ledger, network, accounts.take(a), runs.take(a), now)
}

/// A pass ran from the ledger `before` to the ledger `after` through its
/// three stages in their order and is recorded in `record`:
///
/// - the confirmation stage took in `reports` and made the notices;
/// - on the ledger that it left, the payments of each account were
///   processed, one account after the other;
/// - on the ledger that this left, every unsent transaction of the network
///   was handed to the chain, those that the pass itself built included.
pub open spec fn pass_recorded(
    before: LedgerView,
    after: LedgerView,
    name: Seq<char>,
    platform: Option<Seq<char>>,
    network: Network,
    reports: Seq<ChainReport>,
    accounts: Seq<WatchedAccount>,
    record: PassRecord,
    now: Timestamp,
) -> bool {
    let confirmed = ledger_after_reports(before, network, report_views(reports));
    let runs = runs_of(record.payments@);
    let paid = ledger_after_accounts(confirmed, network, accounts, runs, now);
    &&& notice_views(record.notices@) == notices_after_reports(
        before,
        name,
        platform,
        network,
        report_views(reports),
        now,
    )
    &&& runs.len() == accounts.len()
    &&& forall|a: int|
        0 <= a < accounts.len() ==> account_ran(
            ledger_before_account(confirmed, network, accounts, runs, a, now),
            network,
            accounts[a],
            #[trigger] runs[a],
            now,
        )
    &&& sent_transactions(record.broadcasts@) == paid.unsent_transactions(network)
    &&& forall|k: int|
        0 <= k < record.broadcasts@.len() ==> (#[trigger] record.broadcasts@[k]).step
            == if record.broadcasts@[k].hash is Some {
            BroadcastStep::Submitted
        } else {
            BroadcastStep::LeftUnsent
        }
    &&& after == after_broadcasts(
        paid,
        sent_transactions(record.broadcasts@),
        sent_hashes(record.broadcasts@),
    )
}

/// Every answer in the record is one that `sign` gave to the request beside
/// it.
pub open spec fn signed_by<S: Fn(&TransferRequest) -> Option<Vec<u8>>>(
    sign: &S,
    payments: Seq<Vec<Attempt>>,
) -> bool {
    forall|a: int, k: int|
        0 <= a < payments.len() && 0 <= k < payments[a]@.len() ==> call_ensures(
            sign,
            (&(#[trigger] payments[a]@[k]).request,),
            payments[a]@[k].built,
        )
}

/// Every answer in the record is one that `broadcast` gave for the
/// transaction beside it.
pub open spec fn broadcast_by<B: Fn(&Transaction) -> Option<String>>(
    broadcast: &B,
    broadcasts: Seq<Broadcast>,
) -> bool {
    forall|k: int|
        0 <= k < broadcasts.len() ==> call_ensures(
            broadcast,
            (&(#[trigger] broadcasts[k]).transaction,),
            broadcasts[k].hash,
        )
}

/// One reconciliation pass over `network` at the time `now`: confirmation,
/// then the payments of each watched account, then submission.
pub fn reconcile_at<S: Fn(&TransferRequest) -> Option<Vec<u8>>, B: Fn(&Transaction) -> Option<String>>(
    ledger: &mut Ledger,
    name: &str,
    platform: Option<&str>,
    network: Network,
    reports: &Vec<ChainReport>,
    accounts: &Vec<WatchedAccount>,
    sign: &S,
    broadcast: &B,
    now: Timestamp,
) -> (record: PassRecord)
    requires
        old(ledger).wf(),
        forall|request: &TransferRequest| call_requires(sign, (request,)),
        forall|tx: &Transaction| call_requires(broadcast, (tx,)),
    ensures
        final(ledger).wf(),
        pass_recorded(
            old(ledger)@,
            final(ledger)@,
            name@,
            name_view(platform),
            network,
            reports@,
            accounts@,
            record,
            now,
        ),
        signed_by(sign, record.payments@),
        broadcast_by(broadcast, record.broadcasts@),
{
    let ghost before = ledger@;
    let notices = confirm_payments_at(ledger, name, platform, network, reports, now);
    let ghost confirmed = ledger@;
    let mut payments: Vec<Vec<Attempt>> = Vec::new();
    let mut a: usize = 0;
    assert(accounts@.take(0) =~= Seq::empty());
    assert(runs_of(payments@).take(0) =~= Seq::empty());
    while a < accounts.len()
        invariant
            forall|request: &TransferRequest| call_requires(sign, (request,)),
            a <= accounts@.len(),
            payments@.len() == a,
            ledger.wf(),
            ledger@ == ledger_before_account(
                confirmed,
                network,
                accounts@,
                runs_of(payments@),
                a as int,
                now,
            ),
            forall|b: int|
                0 <= b < a ==> account_ran(
                    ledger_before_account(confirmed, network, accounts@, runs_of(payments@), b, now),
                    network,
                    accounts@[b],
                    #[trigger] runs_of(payments@)[b],
                    now,
                ),
            signed_by(sign, payments@),
        decreases accounts@.len() - a,
    {
        let ghost earlier = payments@;
        let ghost at_turn = ledger@;
        let watched = &accounts[a];
        let attempts = process_payments_for_account_at(
            ledger,
            watched.account.as_str(),
            network,
            watched.chain_nonce,
            sign,
            now,
        );
        payments.push(attempts);
        proof {
            let runs = runs_of(payments@);
            let old_runs = runs_of(earlier);
            assert(runs.take(a as int) =~= old_runs.take(a as int));
            assert(runs.take(a + 1).drop_last() =~= runs.take(a as int));
            assert(accounts@.take(a + 1).drop_last() =~= accounts@.take(a as int));
            assert(accounts@.take(a + 1).last() == accounts@[a as int]);
            assert(runs.take(a + 1).last() == runs[a as int]);
            assert(runs[a as int] == payments@[a as int]@);
            assert forall|b: int| 0 <= b < a + 1 implies account_ran(
                ledger_before_account(confirmed, network, accounts@, runs, b, now),
                network,
                accounts@[b],
                #[trigger] runs[b],
                now,
            ) by {
                if b < a {
                    assert(runs.take(b) =~= old_runs.take(b));
                    assert(runs[b] == old_runs[b]);
                    assert(account_ran(
                        ledger_before_account(confirmed, network, accounts@, old_runs, b, now),
                        network,
                        accounts@[b],
                        old_runs[b],
                        now,
                    ));
                }
            }
            assert forall|b: int, k: int|
                0 <= b < payments@.len() && 0 <= k < payments@[b]@.len() implies call_ensures(
                sign,
                (&(#[trigger] payments@[b]@[k]).request,),
                payments@[b]@[k].built,
            ) by {
                if b < a {
                    assert(payments@[b] == earlier[b]);
                }
            }
        }
        a = a + 1;
    }
    proof {
        assert(accounts@.take(a as int) =~= accounts@);
        assert(runs_of(payments@).take(a as int) =~= runs_of(payments@));
    }
    let broadcasts = process_transactions(ledger, network, broadcast);
    PassRecord { notices, payments, broadcasts }
}

/// `reconcile_at` at the time that the system clock gives when the pass
/// begins.
pub fn reconcile<S: Fn(&TransferRequest) -> Option<Vec<u8>>, B: Fn(&Transaction) -> Option<String>>(
    ledger: &mut Ledger,
    name: &str,
    platform: Option<&str>,
    network: Network,
    reports: &Vec<ChainReport>,
    accounts: &Vec<WatchedAccount>,
    sign: &S,
    broadcast: &B,
) -> (record: PassRecord)
    requires
        old(ledger).wf(),
        forall|request: &TransferRequest| call_requires(sign, (request,)),
        forall|tx: &Transaction| call_requires(broadcast, (tx,)),
    ensures
        final(ledger).wf(),
        exists|now: Timestamp|
            #[trigger] pass_recorded(
                old(ledger)@,
                final(ledger)@,
                name@,
                name_view(platform),
                network,
                reports@,
                accounts@,
                record,
                now,
            ),
        signed_by(sign, record.payments@),
        broadcast_by(broadcast, record.broadcasts@),
{
    let now = utc_now();
    reconcile_at(ledger, name, platform, network, reports, accounts, sign, broadcast, now)
}

} // verus!
