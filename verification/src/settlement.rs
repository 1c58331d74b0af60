//! What the chain reports of a transaction, and the notice that tells the
//! settlement bus of a transaction that went through.

use crate::amount::Amount;
use crate::clock::Timestamp;
use crate::ledger::Ledger;
use crate::model::{
    hash_view, obligation_views, text_views, ObligationView, PaymentObligation, Transaction,
    TxKind,
};
use crate::state::LedgerView;
use crate::txhash::{notice_hash, parse_notice_hash};
use vstd::prelude::*;

verus! {

/// The four observations that the chain client makes of a transaction.
#[derive(Clone, Copy, Debug, PartialEq, Eq, Structural)]
pub struct ChainStatus {
    pub exists_on_chain: bool,
    pub pending: bool,
    pub confirmed: bool,
    pub succeeded: bool,
}

/// The one state that the four observations amount to.
#[derive(Clone, Copy, Debug, PartialEq, Eq, Structural)]
pub enum ChainVerdict {
    /// The chain does not know the transaction.
    Absent,
    /// Known, in no block yet.
    Pending,
    /// In a block, not yet deep enough.
    AwaitingConfirmations,
    /// Finalized, and the call went through.
    Succeeded,
    /// Finalized, and the call was reverted.
    Reverted,
}

impl ChainStatus {
    /// The observations are read in a fixed order: absent, pending, awaiting
    /// confirmations, and only then the outcome.
    pub open spec fn verdict_of(self) -> ChainVerdict {
        if !self.exists_on_chain {
            ChainVerdict::Absent
        } else if self.pending {
            ChainVerdict::Pending
        } else if !self.confirmed {
            ChainVerdict::AwaitingConfirmations
        } else if self.succeeded {
            ChainVerdict::Succeeded
        } else {
            ChainVerdict::Reverted
        }
    }

    /// The state that the observations amount to.
    pub fn verdict(&self) -> (v: ChainVerdict)
        ensures
            v == self.verdict_of(),
    {
        if !self.exists_on_chain {
            ChainVerdict::Absent
        } else if self.pending {
            ChainVerdict::Pending
        } else if !self.confirmed {
            ChainVerdict::AwaitingConfirmations
        } else if self.succeeded {
            ChainVerdict::Succeeded
        } else {
            ChainVerdict::Reverted
        }
    }
}

/// Who paid whom how much, and when.
#[derive(Debug, PartialEq, Eq)]
pub struct PaymentDetails {
    pub recipient: String,
    pub sender: String,
    pub amount: Amount,
    pub date: Option<Timestamp>,
}

/// Payment details as a mathematical value.
pub struct DetailsView {
    pub recipient: Seq<char>,
    pub sender: Seq<char>,
    pub amount: nat,
    pub date: Option<Timestamp>,
}

impl View for PaymentDetails {
    type V = DetailsView;

    open spec fn view(&self) -> DetailsView {
        DetailsView {
            recipient: self.recipient@,
            sender: self.sender@,
            amount: self.amount@,
            date: self.date,
        }
    }
}

impl Clone for PaymentDetails {
    fn clone(&self) -> (r: Self)
        ensures
            r@ == self@,
    {
        PaymentDetails {
            recipient: self.recipient.clone(),
            sender: self.sender.clone(),
            amount: self.amount.clone(),
            date: self.date,
        }
    }
}

/// The view of details that may be absent.
pub open spec fn details_view(details: Option<PaymentDetails>) -> Option<DetailsView> {
    match details {
        Some(d) => Some(d@),
        None => None,
    }
}

/// The view of a text that may be absent.
pub open spec fn name_view(name: Option<&str>) -> Option<Seq<char>> {
    match name {
        Some(n) => Some(n@),
        None => None,
    }
}

/// What the settlement bus is told of one transaction that went through.
#[derive(Debug, PartialEq, Eq)]
pub struct SettlementNotice {
    /// Name of the driver that settled the payments.
    pub driver_name: String,
    /// The payment platform that the network belongs to.
    pub platform: String,
    /// The orders that the transaction settled, oldest first.
    pub order_ids: Vec<String>,
    pub details: PaymentDetails,
    /// The transaction's hash as bytes.
    pub tx_hash: Vec<u8>,
}

/// A settlement notice as a mathematical value.
pub struct NoticeView {
    pub driver_name: Seq<char>,
    pub platform: Seq<char>,
    pub order_ids: Seq<Seq<char>>,
    pub details: DetailsView,
    pub tx_hash: Seq<u8>,
}

impl View for SettlementNotice {
    type V = NoticeView;

    open spec fn view(&self) -> NoticeView {
        NoticeView {
            driver_name: self.driver_name@,
            platform: self.platform@,
            order_ids: text_views(self.order_ids@),
            details: self.details@,
            tx_hash: self.tx_hash@,
        }
    }
}

/// The view of a notice that may be absent.
pub open spec fn notice_view(notice: Option<SettlementNotice>) -> Option<NoticeView> {
    match notice {
        Some(n) => Some(n@),
        None => None,
    }
}

/// The views of a sequence of notices, in the same order.
pub open spec fn notice_views(s: Seq<SettlementNotice>) -> Seq<NoticeView> {
    s.map_values(|n: SettlementNotice| n@)
}

/// The sum of the obligations' amounts.
pub open spec fn total_amount(s: Seq<ObligationView>) -> nat
    decreases s.len(),
{
    if s.len() == 0 {
        0
    } else {
        total_amount(s.drop_last()) + s.last().amount
    }
}

/// The obligations' order ids, in the same order.
pub open spec fn order_ids_of(s: Seq<ObligationView>) -> Seq<Seq<char>> {
    s.map_values(|o: ObligationView| o.order_id)
}

/// Details made up where the chain client cannot supply them: sender and
/// recipient are those of `first`, the date is `now`, and the amount is the
/// sum over all of `payments`.
pub open spec fn bespoke_details(
    first: ObligationView,
    payments: Seq<ObligationView>,
    now: Timestamp,
) -> DetailsView {
    DetailsView {
        recipient: first.recipient,
        sender: first.sender,
        amount: total_amount(payments),
        date: Some(now),
    }
}

/// The oldest obligation that the ledger holds under a hash, none under no
/// hash.
pub open spec fn first_under(ledger: LedgerView, hash: Option<Seq<char>>) -> Option<ObligationView> {
    match hash {
        Some(h) => ledger.first_obligation_for_transaction(h),
        None => None,
    }
}

/// The notice that a transaction of kind `kind` and hash `hash` calls for
/// once it went through, `payments` being the obligations it carries.
///
/// There is none for a transaction without a hash, for a faucet
/// transaction, for a transfer that carries no obligation, where the
/// platform is not known, where neither the chain client has supplied
/// details nor the ledger holds a first obligation under that hash, and
/// where the hash cannot be read. Details that the chain client supplied are
/// used as they are; otherwise they are made up from `first` and `payments`.
pub open spec fn notice_for(
    name: Seq<char>,
    platform: Option<Seq<char>>,
    kind: TxKind,
    hash: Option<Seq<char>>,
    payments: Seq<ObligationView>,
    verified: Option<DetailsView>,
    first: Option<ObligationView>,
    now: Timestamp,
) -> Option<NoticeView> {
    if hash is None {
        None
    } else if kind is Faucet {
        None
    } else if kind is Transfer && payments.len() == 0 {
        None
    } else if platform is None {
        None
    } else if verified is None && first is None {
        None
    } else if notice_hash(hash->0) is None {
        None
    } else {
        Some(
            NoticeView {
                driver_name: name,
                platform: platform->0,
                order_ids: order_ids_of(payments),
                details: match verified {
                    Some(d) => d,
                    None => bespoke_details(first->0, payments, now),
                },
                tx_hash: notice_hash(hash->0)->0,
            },
        )
    }
}

/// The order ids of the obligations, in the same order.
pub fn collect_order_ids(payments: &Vec<PaymentObligation>) -> (r: Vec<String>)
    ensures
        text_views(r@) == order_ids_of(obligation_views(payments@)),
{
    let mut out: Vec<String> = Vec::new();
    let mut i: usize = 0;
    while i < payments.len()
        invariant
            i <= payments@.len(),
            out@.len() == i,
            forall|j: int| 0 <= j < i ==> (#[trigger] out@[j])@ == payments@[j].order_id@,
        decreases payments@.len() - i,
    {
        out.push(payments[i].order_id.clone());
        i = i + 1;
    }
    assert(text_views(out@) =~= order_ids_of(obligation_views(payments@)));
    out
}

/// The sum of the obligations' amounts.
pub fn total_of(payments: &Vec<PaymentObligation>) -> (r: Amount)
    ensures
        r@ == total_amount(obligation_views(payments@)),
{
    let ghost all = obligation_views(payments@);
    let mut sum = Amount::zero();
    let mut i: usize = 0;
    assert(all.take(0) =~= Seq::empty());
    while i < payments.len()
        invariant
            all == obligation_views(payments@),
            i <= payments@.len(),
            sum@ == total_amount(all.take(i as int)),
        decreases payments@.len() - i,
    {
        assert(all.take(i + 1).drop_last() =~= all.take(i as int));
        sum = sum.add(&payments[i].amount);
        i = i + 1;
    }
    assert(all.take(i as int) =~= all);
    sum
}

/// Builds the notice for a transaction that went through, if it calls for
/// one. Details that the chain client verified are preferred; without them
/// the details are made up from the first obligation that the ledger holds
/// under the transaction's hash and from the sum of all `payments`.
pub fn settlement_notice(
    ledger: &Ledger,
    name: &str,
    platform: Option<&str>,
    tx: &Transaction,
    payments: &Vec<PaymentObligation>,
    verified: &Option<PaymentDetails>,
    now: Timestamp,
) -> (r: Option<SettlementNotice>)
    requires
        ledger.wf(),
    ensures
        notice_view(r) == notice_for(
            name@,
            name_view(platform),
            tx.kind,
            hash_view(tx.hash),
            obligation_views(payments@),
            details_view(*verified),
            first_under(ledger@, hash_view(tx.hash)),
            now,
        ),
{
    let hash = match &tx.hash {
        Some(h) => h,
        None => {
            return None;
        },
    };
    if tx.kind == TxKind::Faucet {
        return None;
    }
    if tx.kind == TxKind::Transfer && payments.len() == 0 {
        return None;
    }
    let platform_name = match platform {
        Some(p) => p,
        None => {
            return None;
        },
    };
    let details = match verified {
        Some(d) => d.clone(),
        None => match ledger.first_obligation_for_transaction(hash.as_str()) {
            Some(first) => PaymentDetails {
                recipient: first.recipient,
                sender: first.sender,
                amount: total_of(payments),
                date: Some(now),
            },
            None => {
                return None;
            },
        },
    };
    let tx_hash = match parse_notice_hash(hash.as_str()) {
        Some(bytes) => bytes,
        None => {
            return None;
        },
    };
    Some(
        SettlementNotice {
            driver_name: name.to_owned(),
            platform: platform_name.to_owned(),
            order_ids: collect_order_ids(payments),
            details,
            tx_hash,
        },
    )
}

} // verus!
