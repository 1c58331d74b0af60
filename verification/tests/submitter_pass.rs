use erc20_cron::amount::Amount;
use erc20_cron::clock::{Timestamp, TX_SUBMIT_TIMEOUT_SECS};
use erc20_cron::ledger::Ledger;
use erc20_cron::model::{
    Network, NewTransaction, ObligationStatus, PaymentObligation, Transaction, TxKind, TxStatus,
};
use erc20_cron::nonce::{next_nonce, NONCE_LIMIT};
use erc20_cron::submitter::{
    handle_payment, handle_payment_at, process_payments_for_account,
    process_payments_for_account_at, process_transactions, record_broadcast, BroadcastStep,
    PaymentStep, TransferRequest,
};
use std::cell::{Cell, RefCell};

const RINKEBY: Network = Network { id: 4 };
const MAINNET: Network = Network { id: 1 };
const MINUTE: i64 = 60;
const NOW: i64 = 1_700_000_000;

fn owed(order_id: &str, amount: u128, due_secs: i64) -> PaymentObligation {
    PaymentObligation {
        order_id: order_id.to_string(),
        sender: "0xrequestor".to_string(),
        recipient: format!("0xprovider-of-{order_id}"),
        amount: Amount::from_u128(amount),
        network: RINKEBY,
        due_by: Timestamp::new(due_secs, 500),
        status: ObligationStatus::Pending,
        tx_id: None,
    }
}

fn transfer(nonce: u64) -> NewTransaction {
    NewTransaction {
        encoded: vec![7, 7, 7],
        network: RINKEBY,
        kind: TxKind::Transfer,
        sender: "0xrequestor".to_string(),
        nonce,
    }
}

fn hash_text(n: u64) -> String {
    format!("0x{:064x}", n)
}

#[test]
fn retry_window_is_fifteen_minutes() {
    assert_eq!(TX_SUBMIT_TIMEOUT_SECS, 900);
}

#[test]
fn overdue_obligation_fails_when_its_transfer_cannot_be_built() {
    let mut ledger = Ledger::new();
    ledger.record_obligation(owed("O1", 10, NOW - 20 * MINUTE)).unwrap();
    let mut nonce: u64 = 5;
    let step = handle_payment_at(&mut ledger, "O1", &mut nonce, None, Timestamp::new(NOW, 500));
    assert_eq!(step, PaymentStep::Failed);
    assert_eq!(nonce, 5);
    assert_eq!(ledger.obligation("O1").unwrap().status, ObligationStatus::Failed);
    assert_eq!(ledger.transaction_count(), 0);
    // It is never tried again.
    assert!(ledger.pending_obligations("0xrequestor", RINKEBY).is_empty());
    let again = handle_payment_at(&mut ledger, "O1", &mut nonce, Some(vec![1]), Timestamp::new(NOW, 0));
    assert_eq!(again, PaymentStep::Rejected);
    assert_eq!(ledger.obligation("O1").unwrap().status, ObligationStatus::Failed);
}

#[test]
fn obligation_is_retried_up_to_the_last_moment_of_the_window() {
    let due = NOW - 15 * MINUTE;
    for (secs, nanos, expected) in [
        (due - 1, 0, PaymentStep::Retry),
        (NOW - 1, 999_999_999, PaymentStep::Retry),
        (NOW, 0, PaymentStep::Retry),
        (NOW, 500, PaymentStep::Retry),
        (NOW, 501, PaymentStep::Failed),
        (NOW + 1, 0, PaymentStep::Failed),
    ] {
        let mut ledger = Ledger::new();
        ledger.record_obligation(owed("O1", 10, due)).unwrap();
        let mut nonce: u64 = 0;
        let step =
            handle_payment_at(&mut ledger, "O1", &mut nonce, None, Timestamp::new(secs, nanos));
        assert_eq!(step, expected, "at {secs}.{nanos}");
        let status = ledger.obligation("O1").unwrap().status;
        if expected == PaymentStep::Failed {
            assert_eq!(status, ObligationStatus::Failed);
        } else {
            assert_eq!(status, ObligationStatus::Pending);
        }
        assert_eq!(nonce, 0);
    }
}

#[test]
fn deadline_beyond_the_last_second_is_never_passed() {
    let due = Timestamp::new(i64::MAX - 10, 0);
    assert!(!Timestamp::new(i64::MAX, 999_999_999).past_deadline(&due));
    let near = Timestamp::new(i64::MAX - 900, 7);
    assert!(!Timestamp::new(i64::MAX, 7).past_deadline(&near));
    assert!(Timestamp::new(i64::MAX, 8).past_deadline(&near));
    assert!(Timestamp::new(i64::MIN + 901, 0).past_deadline(&Timestamp::new(i64::MIN, 0)));
    assert!(!Timestamp::new(i64::MIN + 900, 0).past_deadline(&Timestamp::new(i64::MIN, 0)));
}

#[test]
fn timestamps_compare_by_seconds_then_nanoseconds() {
    assert!(Timestamp::new(2, 0).after(&Timestamp::new(1, 999_999_999)));
    assert!(Timestamp::new(1, 1).after(&Timestamp::new(1, 0)));
    assert!(!Timestamp::new(1, 1).after(&Timestamp::new(1, 1)));
    assert!(!Timestamp::new(-1, 5).after(&Timestamp::new(0, 0)));
}

#[test]
fn built_transfer_is_recorded_and_the_counter_moves_on() {
    let mut ledger = Ledger::new();
    ledger.record_obligation(owed("O1", 10, NOW - 20 * MINUTE)).unwrap();
    let mut nonce: u64 = 41;
    let step = handle_payment_at(
        &mut ledger,
        "O1",
        &mut nonce,
        Some(vec![0xde, 0xad]),
        Timestamp::new(NOW, 0),
    );
    assert_eq!(step, PaymentStep::Recorded(0));
    assert_eq!(nonce, 42);
    let tx = ledger.transaction(0).unwrap();
    assert_eq!(
        tx,
        Transaction {
            tx_id: 0,
            encoded: vec![0xde, 0xad],
            network: RINKEBY,
            kind: TxKind::Transfer,
            sender: "0xrequestor".to_string(),
            nonce: 41,
            hash: None,
            status: TxStatus::Unsent,
        }
    );
    let paid = ledger.obligation("O1").unwrap();
    assert_eq!(paid.status, ObligationStatus::Sent);
    assert_eq!(paid.tx_id, Some(0));
}

#[test]
fn exhausted_counter_counts_as_a_failure_to_build() {
    let mut ledger = Ledger::new();
    ledger.record_obligation(owed("O1", 10, NOW)).unwrap();
    ledger.record_obligation(owed("O2", 10, NOW - 20 * MINUTE)).unwrap();
    let mut nonce: u64 = NONCE_LIMIT;
    let now = Timestamp::new(NOW, 0);
    assert_eq!(handle_payment_at(&mut ledger, "O1", &mut nonce, Some(vec![1]), now), PaymentStep::Retry);
    assert_eq!(handle_payment_at(&mut ledger, "O2", &mut nonce, Some(vec![1]), now), PaymentStep::Failed);
    assert_eq!(nonce, NONCE_LIMIT);
    assert_eq!(ledger.transaction_count(), 0);
    let mut last: u64 = NONCE_LIMIT - 1;
    assert_eq!(
        handle_payment_at(&mut ledger, "O1", &mut last, Some(vec![1]), now),
        PaymentStep::Recorded(0)
    );
    assert_eq!(last, NONCE_LIMIT);
}

#[test]
fn unknown_order_is_rejected() {
    let mut ledger = Ledger::new();
    let mut nonce: u64 = 3;
    let step = handle_payment_at(&mut ledger, "O1", &mut nonce, Some(vec![1]), Timestamp::new(NOW, 0));
    assert_eq!(step, PaymentStep::Rejected);
    assert_eq!(nonce, 3);
    assert_eq!(ledger.transaction_count(), 0);
}

#[test]
fn clock_decides_the_fate_of_a_failed_build() {
    let mut ledger = Ledger::new();
    ledger.record_obligation(owed("long-overdue", 10, 0)).unwrap();
    ledger.record_obligation(owed("far-ahead", 10, i64::MAX - 1_000)).unwrap();
    let mut nonce: u64 = 0;
    assert_eq!(handle_payment(&mut ledger, "long-overdue", &mut nonce, None), PaymentStep::Failed);
    assert_eq!(handle_payment(&mut ledger, "far-ahead", &mut nonce, None), PaymentStep::Retry);
    assert_eq!(handle_payment(&mut ledger, "far-ahead", &mut nonce, Some(vec![9])), PaymentStep::Recorded(0));
    assert_eq!(nonce, 1);
}

#[test]
fn next_nonce_is_the_higher_of_chain_and_ledger() {
    let mut ledger = Ledger::new();
    assert_eq!(next_nonce(&ledger, "0xrequestor", RINKEBY, 7), 7);
    ledger.record_transaction(transfer(9), &vec![]).unwrap();
    assert_eq!(next_nonce(&ledger, "0xrequestor", RINKEBY, 7), 7);
    ledger.mark_submitted(0, &hash_text(1)).unwrap();
    assert_eq!(next_nonce(&ledger, "0xrequestor", RINKEBY, 7), 10);
    assert_eq!(next_nonce(&ledger, "0xrequestor", RINKEBY, 10), 10);
    assert_eq!(next_nonce(&ledger, "0xrequestor", RINKEBY, 11), 11);
    assert_eq!(next_nonce(&ledger, "0xrequestor", MAINNET, 2), 2);
    assert_eq!(next_nonce(&ledger, "0xother", RINKEBY, 0), 0);
    ledger.record_transaction(transfer(NONCE_LIMIT), &vec![]).unwrap();
    ledger.mark_submitted(1, &hash_text(2)).unwrap();
    assert_eq!(next_nonce(&ledger, "0xrequestor", RINKEBY, 7), NONCE_LIMIT);
}

#[test]
fn pass_gives_consecutive_nonces_to_the_transfers_it_records() {
    let mut ledger = Ledger::new();
    for (i, order) in ["O1", "O2", "O3", "O4", "O5"].iter().enumerate() {
        ledger.record_obligation(owed(order, 10 + i as u128, NOW)).unwrap();
    }
    ledger.record_transaction(transfer(11), &vec![]).unwrap();
    ledger.mark_submitted(0, &hash_text(1)).unwrap();
    let asked: RefCell<Vec<(String, u64, u128)>> = RefCell::new(Vec::new());
    let sign = |request: &TransferRequest| {
        asked.borrow_mut().push((
            request.order_id.clone(),
            request.nonce,
            request.amount.to_u128().unwrap(),
        ));
        if request.order_id == "O2" || request.order_id == "O4" {
            None
        } else {
            Some(request.order_id.as_bytes().to_vec())
        }
    };
    let attempts = process_payments_for_account_at(
        &mut ledger,
        "0xrequestor",
        RINKEBY,
        Some(3),
        &sign,
        Timestamp::new(NOW, 0),
    );
    assert_eq!(
        *asked.borrow(),
        vec![
            ("O1".to_string(), 12, 10),
            ("O2".to_string(), 13, 11),
            ("O3".to_string(), 13, 12),
            ("O4".to_string(), 14, 13),
            ("O5".to_string(), 14, 14),
        ]
    );
    let steps: Vec<PaymentStep> = attempts.iter().map(|a| a.step).collect();
    assert_eq!(
        steps,
        vec![
            PaymentStep::Recorded(1),
            PaymentStep::Retry,
            PaymentStep::Recorded(2),
            PaymentStep::Retry,
            PaymentStep::Recorded(3),
        ]
    );
    assert_eq!(attempts[0].request.recipient, "0xprovider-of-O1");
    assert_eq!(attempts[0].request.sender, "0xrequestor");
    assert_eq!(attempts[0].request.network, RINKEBY);
    assert_eq!(attempts[2].built, Some("O3".as_bytes().to_vec()));
    let nonces: Vec<u64> = (1..4).map(|id| ledger.transaction(id).unwrap().nonce).collect();
    assert_eq!(nonces, vec![12, 13, 14]);
    assert_eq!(ledger.transaction(2).unwrap().encoded, "O3".as_bytes().to_vec());
    assert_eq!(ledger.obligation("O3").unwrap().tx_id, Some(2));
    let left = ledger.pending_obligations("0xrequestor", RINKEBY);
    let ids: Vec<&str> = left.iter().map(|o| o.order_id.as_str()).collect();
    assert_eq!(ids, vec!["O2", "O4"]);
}

#[test]
fn pass_without_the_chains_nonce_does_nothing() {
    let mut ledger = Ledger::new();
    ledger.record_obligation(owed("O1", 10, 0)).unwrap();
    let calls = Cell::new(0);
    let sign = |_request: &TransferRequest| {
        calls.set(calls.get() + 1);
        Some(vec![1])
    };
    let attempts = process_payments_for_account_at(
        &mut ledger,
        "0xrequestor",
        RINKEBY,
        None,
        &sign,
        Timestamp::new(NOW, 0),
    );
    assert!(attempts.is_empty());
    assert_eq!(calls.get(), 0);
    assert_eq!(ledger.obligation("O1").unwrap().status, ObligationStatus::Pending);
    assert_eq!(ledger.transaction_count(), 0);
}

#[test]
fn pass_leaves_other_accounts_and_networks_alone() {
    let mut ledger = Ledger::new();
    ledger.record_obligation(owed("O1", 10, 0)).unwrap();
    let mut foreign = owed("O2", 10, 0);
    foreign.sender = "0xother".to_string();
    ledger.record_obligation(foreign).unwrap();
    let mut elsewhere = owed("O3", 10, 0);
    elsewhere.network = MAINNET;
    ledger.record_obligation(elsewhere).unwrap();
    let sign = |_request: &TransferRequest| -> Option<Vec<u8>> { None };
    let attempts = process_payments_for_account_at(
        &mut ledger,
        "0xrequestor",
        RINKEBY,
        Some(0),
        &sign,
        Timestamp::new(NOW, 0),
    );
    assert_eq!(attempts.len(), 1);
    assert_eq!(attempts[0].step, PaymentStep::Failed);
    assert_eq!(ledger.obligation("O1").unwrap().status, ObligationStatus::Failed);
    assert_eq!(ledger.obligation("O2").unwrap().status, ObligationStatus::Pending);
    assert_eq!(ledger.obligation("O3").unwrap().status, ObligationStatus::Pending);
}

#[test]
fn pass_timed_by_the_clock_fails_what_is_long_overdue() {
    let mut ledger = Ledger::new();
    ledger.record_obligation(owed("long-overdue", 10, 0)).unwrap();
    ledger.record_obligation(owed("far-ahead", 10, i64::MAX - 1_000)).unwrap();
    ledger.record_obligation(owed("payable", 10, 0)).unwrap();
    let sign = |request: &TransferRequest| {
        if request.order_id == "payable" {
            Some(vec![request.nonce as u8])
        } else {
            None
        }
    };
    let attempts =
        process_payments_for_account(&mut ledger, "0xrequestor", RINKEBY, Some(200), &sign);
    let steps: Vec<PaymentStep> = attempts.iter().map(|a| a.step).collect();
    assert_eq!(steps, vec![PaymentStep::Failed, PaymentStep::Retry, PaymentStep::Recorded(0)]);
    assert_eq!(ledger.transaction(0).unwrap().nonce, 200);
    assert_eq!(ledger.transaction(0).unwrap().encoded, vec![200]);
}

#[test]
fn unsent_transaction_is_submitted_once_across_passes() {
    let mut ledger = Ledger::new();
    ledger.record_obligation(owed("O1", 10, NOW)).unwrap();
    let mut nonce: u64 = 0;
    handle_payment_at(&mut ledger, "O1", &mut nonce, Some(vec![1, 2]), Timestamp::new(NOW, 0));
    // What a restart finds in storage is what was recorded.
    let mut restored = Ledger::restore(ledger.obligations(), ledger.transactions()).unwrap();
    assert_eq!(restored, ledger);
    assert_eq!(restored.unsent_transactions(RINKEBY).len(), 1);
    let handed_over: RefCell<Vec<usize>> = RefCell::new(Vec::new());
    let down = |tx: &Transaction| -> Option<String> {
        handed_over.borrow_mut().push(tx.tx_id);
        None
    };
    let up = |tx: &Transaction| -> Option<String> {
        handed_over.borrow_mut().push(tx.tx_id);
        Some(hash_text(0xfeed))
    };
    // The chain is down: the transaction stays unsent, however often.
    for _ in 0..3 {
        let sent = process_transactions(&mut restored, RINKEBY, &down);
        assert_eq!(sent.len(), 1);
        assert_eq!(sent[0].step, BroadcastStep::LeftUnsent);
        assert_eq!(restored.transaction(0).unwrap().status, TxStatus::Unsent);
    }
    let sent = process_transactions(&mut restored, RINKEBY, &up);
    assert_eq!(sent.len(), 1);
    assert_eq!(sent[0].transaction.encoded, vec![1, 2]);
    assert_eq!(sent[0].hash, Some(hash_text(0xfeed)));
    assert_eq!(sent[0].step, BroadcastStep::Submitted);
    let tx = restored.transaction(0).unwrap();
    assert_eq!(tx.status, TxStatus::Submitted);
    assert_eq!(tx.hash, Some(hash_text(0xfeed)));
    // No later pass hands it over again.
    for _ in 0..3 {
        assert!(process_transactions(&mut restored, RINKEBY, &up).is_empty());
    }
    assert_eq!(*handed_over.borrow(), vec![0, 0, 0, 0]);
    assert_eq!(restored.transaction(0).unwrap().hash, Some(hash_text(0xfeed)));
}

#[test]
fn submission_pass_takes_the_unsent_of_one_network_oldest_first() {
    let mut ledger = Ledger::new();
    ledger.record_transaction(transfer(0), &vec![]).unwrap();
    let mut elsewhere = transfer(0);
    elsewhere.network = MAINNET;
    ledger.record_transaction(elsewhere, &vec![]).unwrap();
    ledger.record_transaction(transfer(1), &vec![]).unwrap();
    ledger.record_transaction(transfer(2), &vec![]).unwrap();
    ledger.mark_submitted(2, &hash_text(100)).unwrap();
    let broadcast = |tx: &Transaction| -> Option<String> {
        if tx.nonce == 0 {
            None
        } else {
            Some(hash_text(tx.nonce))
        }
    };
    let sent = process_transactions(&mut ledger, RINKEBY, &broadcast);
    let ids: Vec<usize> = sent.iter().map(|b| b.transaction.tx_id).collect();
    assert_eq!(ids, vec![0, 3]);
    assert_eq!(sent[0].step, BroadcastStep::LeftUnsent);
    assert_eq!(sent[1].step, BroadcastStep::Submitted);
    assert_eq!(ledger.transaction(0).unwrap().status, TxStatus::Unsent);
    assert_eq!(ledger.transaction(1).unwrap().status, TxStatus::Unsent);
    assert_eq!(ledger.transaction(2).unwrap().hash, Some(hash_text(100)));
    assert_eq!(ledger.transaction(3).unwrap().hash, Some(hash_text(2)));
}

#[test]
fn answer_to_a_broadcast_is_taken_in() {
    let mut ledger = Ledger::new();
    ledger.record_transaction(transfer(0), &vec![]).unwrap();
    assert_eq!(record_broadcast(&mut ledger, 0, None), BroadcastStep::LeftUnsent);
    assert_eq!(record_broadcast(&mut ledger, 1, None), BroadcastStep::Rejected);
    assert_eq!(record_broadcast(&mut ledger, 1, Some(&hash_text(1))), BroadcastStep::Rejected);
    assert_eq!(record_broadcast(&mut ledger, 0, Some(&hash_text(1))), BroadcastStep::Submitted);
    assert_eq!(record_broadcast(&mut ledger, 0, Some(&hash_text(1))), BroadcastStep::Submitted);
    assert_eq!(record_broadcast(&mut ledger, 0, Some(&hash_text(2))), BroadcastStep::Rejected);
    assert_eq!(record_broadcast(&mut ledger, 0, None), BroadcastStep::Rejected);
    assert_eq!(ledger.transaction(0).unwrap().hash, Some(hash_text(1)));
}
