use erc20_cron::amount::Amount;
use erc20_cron::clock::Timestamp;
use erc20_cron::ledger::Ledger;
use erc20_cron::model::{
    Network, NewTransaction, ObligationStatus, PaymentObligation, Transaction, TxKind, TxStatus,
};
use erc20_cron::poller::ChainReport;
use erc20_cron::scheduler::{
    first_stage, next_stage, reconcile, reconcile_at, Stage, WatchedAccount,
};
use erc20_cron::settlement::ChainStatus;
use erc20_cron::submitter::{BroadcastStep, PaymentStep, TransferRequest};
use std::cell::RefCell;

const RINKEBY: Network = Network { id: 4 };
const NOW: i64 = 1_700_000_000;

fn owed(order_id: &str, sender: &str, amount: u128, due_secs: i64) -> PaymentObligation {
    PaymentObligation {
        order_id: order_id.to_string(),
        sender: sender.to_string(),
        recipient: "0xprovider".to_string(),
        amount: Amount::from_u128(amount),
        network: RINKEBY,
        due_by: Timestamp::new(due_secs, 0),
        status: ObligationStatus::Pending,
        tx_id: None,
    }
}

fn hash_text(n: u64) -> String {
    format!("0x{:064x}", n)
}

fn finalized(tx_id: usize, succeeded: bool) -> ChainReport {
    ChainReport {
        tx_id,
        payload_decoded: true,
        status: Some(ChainStatus {
            exists_on_chain: true,
            pending: false,
            confirmed: true,
            succeeded,
        }),
        verified: None,
    }
}

#[test]
fn stages_follow_one_another() {
    assert_eq!(first_stage(), Stage::Confirm);
    assert_eq!(next_stage(Stage::Confirm), Some(Stage::Pay));
    assert_eq!(next_stage(Stage::Pay), Some(Stage::Submit));
    assert_eq!(next_stage(Stage::Submit), None);
}

#[test]
fn pass_confirms_then_pays_then_submits() {
    let mut ledger = Ledger::new();
    // Two transactions wait for the chain's verdict.
    ledger.record_obligation(owed("settled", "0xalice", 5, NOW)).unwrap();
    ledger.record_obligation(owed("bounced", "0xalice", 7, NOW)).unwrap();
    for (order, nonce) in [("settled", 0u64), ("bounced", 1u64)] {
        let tx = NewTransaction {
            encoded: vec![nonce as u8],
            network: RINKEBY,
            kind: TxKind::Transfer,
            sender: "0xalice".to_string(),
            nonce,
        };
        let id = ledger.record_transaction(tx, &vec![order.to_string()]).unwrap();
        ledger.mark_submitted(id, &hash_text(0xa0 + nonce)).unwrap();
    }
    // Three obligations wait to be paid.
    ledger.record_obligation(owed("A1", "0xalice", 10, NOW)).unwrap();
    ledger.record_obligation(owed("B1", "0xbob", 20, NOW)).unwrap();
    ledger.record_obligation(owed("A2", "0xalice", 30, NOW - 3_600)).unwrap();

    let events: RefCell<Vec<String>> = RefCell::new(Vec::new());
    let sign = |request: &TransferRequest| {
        events.borrow_mut().push(format!("sign {} #{}", request.order_id, request.nonce));
        if request.order_id == "A2" {
            None
        } else {
            Some(request.order_id.as_bytes().to_vec())
        }
    };
    let broadcast = |tx: &Transaction| {
        events.borrow_mut().push(format!("send {}", tx.tx_id));
        if tx.sender == "0xbob" {
            None
        } else {
            Some(hash_text(0xb0 + tx.nonce))
        }
    };
    let accounts = vec![
        WatchedAccount { account: "0xalice".to_string(), chain_nonce: Some(1) },
        WatchedAccount { account: "0xbob".to_string(), chain_nonce: Some(4) },
        WatchedAccount { account: "0xcarol".to_string(), chain_nonce: None },
    ];
    let reports = vec![finalized(0, true), finalized(1, false)];
    let record = reconcile_at(
        &mut ledger,
        "erc20",
        Some("erc20-rinkeby-tglm"),
        RINKEBY,
        &reports,
        &accounts,
        &sign,
        &broadcast,
        Timestamp::new(NOW, 0),
    );

    // Confirmation: one notice for the transaction that went through.
    assert_eq!(record.notices.len(), 1);
    assert_eq!(record.notices[0].order_ids, vec!["settled".to_string()]);
    assert_eq!(record.notices[0].details.amount.to_u128(), Some(5));
    assert_eq!(ledger.obligation("settled").unwrap().status, ObligationStatus::Confirmed);
    assert_eq!(ledger.obligation("bounced").unwrap().status, ObligationStatus::Failed);
    assert_eq!(ledger.transaction(1).unwrap().status, TxStatus::ConfirmedFailure);

    // Payments: alice continues past her highest submitted number, bob at the chain's.
    assert_eq!(record.payments.len(), 3);
    let steps: Vec<Vec<PaymentStep>> =
        record.payments.iter().map(|run| run.iter().map(|a| a.step).collect()).collect();
    assert_eq!(
        steps,
        vec![
            vec![PaymentStep::Recorded(2), PaymentStep::Failed],
            vec![PaymentStep::Recorded(3)],
            vec![],
        ]
    );
    assert_eq!(ledger.transaction(2).unwrap().nonce, 2);
    assert_eq!(ledger.transaction(3).unwrap().nonce, 4);
    assert_eq!(ledger.obligation("A2").unwrap().status, ObligationStatus::Failed);

    // Submission: what the pass built is handed over in the same pass.
    let sent: Vec<(usize, BroadcastStep)> =
        record.broadcasts.iter().map(|b| (b.transaction.tx_id, b.step)).collect();
    assert_eq!(sent, vec![(2, BroadcastStep::Submitted), (3, BroadcastStep::LeftUnsent)]);
    assert_eq!(ledger.transaction(2).unwrap().hash, Some(hash_text(0xb2)));
    assert_eq!(ledger.transaction(3).unwrap().status, TxStatus::Unsent);

    assert_eq!(
        *events.borrow(),
        vec!["sign A1 #2", "sign A2 #3", "sign B1 #4", "send 2", "send 3"]
    );
}

#[test]
fn pass_timed_by_the_clock_runs_the_same_stages() {
    let mut ledger = Ledger::new();
    ledger.record_obligation(owed("A1", "0xalice", 10, 0)).unwrap();
    ledger.record_obligation(owed("A2", "0xalice", 10, 0)).unwrap();
    let sign = |request: &TransferRequest| {
        if request.order_id == "A1" {
            Some(vec![1, 2, 3])
        } else {
            None
        }
    };
    let broadcast = |tx: &Transaction| Some(hash_text(tx.nonce));
    let accounts = vec![WatchedAccount { account: "0xalice".to_string(), chain_nonce: Some(8) }];
    let record =
        reconcile(&mut ledger, "erc20", None, RINKEBY, &vec![], &accounts, &sign, &broadcast);
    assert!(record.notices.is_empty());
    assert_eq!(record.payments[0][0].step, PaymentStep::Recorded(0));
    assert_eq!(record.payments[0][1].step, PaymentStep::Failed);
    assert_eq!(record.broadcasts.len(), 1);
    assert_eq!(ledger.transaction(0).unwrap().status, TxStatus::Submitted);
    assert_eq!(ledger.transaction(0).unwrap().hash, Some(hash_text(8)));

    // The next pass finds nothing to build and nothing to hand over.
    let record =
        reconcile(&mut ledger, "erc20", None, RINKEBY, &vec![], &accounts, &sign, &broadcast);
    assert_eq!(record.payments, vec![vec![]]);
    assert!(record.broadcasts.is_empty());
}
