use erc20_cron::amount::Amount;
use erc20_cron::clock::Timestamp;
use erc20_cron::ledger::Ledger;
use erc20_cron::model::{
    LedgerError, Network, NewTransaction, ObligationStatus, PaymentObligation, TxKind, TxStatus,
};

const RINKEBY: Network = Network { id: 4 };
const MAINNET: Network = Network { id: 1 };

fn owed(order_id: &str, sender: &str, amount: u128, network: Network) -> PaymentObligation {
    PaymentObligation {
        order_id: order_id.to_string(),
        sender: sender.to_string(),
        recipient: "0xprovider".to_string(),
        amount: Amount::from_u128(amount),
        network,
        due_by: Timestamp::new(1_000, 0),
        status: ObligationStatus::Pending,
        tx_id: None,
    }
}

fn transfer(sender: &str, nonce: u64, network: Network) -> NewTransaction {
    NewTransaction {
        encoded: vec![0xa9, 0x05, 0x9c, 0xbb],
        network,
        kind: TxKind::Transfer,
        sender: sender.to_string(),
        nonce,
    }
}

fn hash_text(n: u8) -> String {
    format!("0x{:064x}", n)
}

#[test]
fn new_ledger_holds_nothing() {
    let ledger = Ledger::new();
    assert_eq!(ledger.obligation_count(), 0);
    assert_eq!(ledger.transaction_count(), 0);
    assert!(ledger.pending_obligations("0xrequestor", RINKEBY).is_empty());
    assert!(ledger.unsent_transactions(RINKEBY).is_empty());
    assert!(ledger.unconfirmed_transactions(RINKEBY).is_empty());
    assert_eq!(ledger.obligation("O1"), None);
    assert_eq!(ledger.transaction(0), None);
}

#[test]
fn recorded_obligation_is_pending_whatever_it_claimed() {
    let mut ledger = Ledger::new();
    let mut claimed = owed("O1", "0xrequestor", 10, RINKEBY);
    claimed.status = ObligationStatus::Confirmed;
    claimed.tx_id = Some(7);
    assert_eq!(ledger.record_obligation(claimed), Ok(()));
    let stored = ledger.obligation("O1").unwrap();
    assert_eq!(stored.status, ObligationStatus::Pending);
    assert_eq!(stored.tx_id, None);
    assert_eq!(stored.amount.to_u128(), Some(10));
}

#[test]
fn second_obligation_under_one_order_id_is_a_duplicate() {
    let mut ledger = Ledger::new();
    assert_eq!(ledger.record_obligation(owed("O1", "0xrequestor", 10, RINKEBY)), Ok(()));
    assert_eq!(
        ledger.record_obligation(owed("O1", "0xother", 99, MAINNET)),
        Err(LedgerError::DuplicateOrder)
    );
    assert_eq!(ledger.obligation_count(), 1);
    assert_eq!(ledger.obligation("O1").unwrap().sender, "0xrequestor");
}

#[test]
fn pending_obligations_come_oldest_first_for_one_account_and_network() {
    let mut ledger = Ledger::new();
    ledger.record_obligation(owed("O1", "0xrequestor", 1, RINKEBY)).unwrap();
    ledger.record_obligation(owed("O2", "0xother", 2, RINKEBY)).unwrap();
    ledger.record_obligation(owed("O3", "0xrequestor", 3, MAINNET)).unwrap();
    ledger.record_obligation(owed("O4", "0xrequestor", 4, RINKEBY)).unwrap();
    ledger.record_obligation(owed("O5", "0xrequestor", 5, RINKEBY)).unwrap();
    ledger.mark_obligation_failed("O4").unwrap();
    let pending = ledger.pending_obligations("0xrequestor", RINKEBY);
    let ids: Vec<&str> = pending.iter().map(|o| o.order_id.as_str()).collect();
    assert_eq!(ids, vec!["O1", "O5"]);
}

#[test]
fn recording_a_transaction_binds_its_obligations() {
    let mut ledger = Ledger::new();
    ledger.record_obligation(owed("O1", "0xrequestor", 5, RINKEBY)).unwrap();
    ledger.record_obligation(owed("O2", "0xrequestor", 7, RINKEBY)).unwrap();
    ledger.record_obligation(owed("O3", "0xrequestor", 9, RINKEBY)).unwrap();
    let orders = vec!["O1".to_string(), "O3".to_string()];
    assert_eq!(ledger.record_transaction(transfer("0xrequestor", 3, RINKEBY), &orders), Ok(0));
    let tx = ledger.transaction(0).unwrap();
    assert_eq!(tx.tx_id, 0);
    assert_eq!(tx.status, TxStatus::Unsent);
    assert_eq!(tx.hash, None);
    assert_eq!(tx.nonce, 3);
    assert_eq!(tx.encoded, vec![0xa9, 0x05, 0x9c, 0xbb]);
    assert_eq!(ledger.obligation("O1").unwrap().status, ObligationStatus::Sent);
    assert_eq!(ledger.obligation("O1").unwrap().tx_id, Some(0));
    assert_eq!(ledger.obligation("O2").unwrap().status, ObligationStatus::Pending);
    assert_eq!(ledger.obligation("O2").unwrap().tx_id, None);
    assert_eq!(ledger.obligation("O3").unwrap().tx_id, Some(0));
    let carried = ledger.obligations_of(0);
    let ids: Vec<&str> = carried.iter().map(|o| o.order_id.as_str()).collect();
    assert_eq!(ids, vec!["O1", "O3"]);
    assert_eq!(ledger.unsent_transactions(RINKEBY).len(), 1);
    assert!(ledger.unsent_transactions(MAINNET).is_empty());
}

#[test]
fn transaction_for_an_order_that_is_not_pending_is_refused_whole() {
    let mut ledger = Ledger::new();
    ledger.record_obligation(owed("O1", "0xrequestor", 5, RINKEBY)).unwrap();
    ledger.record_obligation(owed("O2", "0xrequestor", 7, RINKEBY)).unwrap();
    ledger.mark_obligation_failed("O2").unwrap();
    let orders = vec!["O1".to_string(), "O2".to_string()];
    assert_eq!(
        ledger.record_transaction(transfer("0xrequestor", 0, RINKEBY), &orders),
        Err(LedgerError::InconsistentState)
    );
    let unknown = vec!["O9".to_string()];
    assert_eq!(
        ledger.record_transaction(transfer("0xrequestor", 0, RINKEBY), &unknown),
        Err(LedgerError::InconsistentState)
    );
    assert_eq!(ledger.transaction_count(), 0);
    assert_eq!(ledger.obligation("O1").unwrap().status, ObligationStatus::Pending);
}

#[test]
fn transaction_without_obligations_can_be_recorded() {
    let mut ledger = Ledger::new();
    assert_eq!(ledger.record_transaction(transfer("0xrequestor", 0, RINKEBY), &vec![]), Ok(0));
    assert_eq!(ledger.record_transaction(transfer("0xrequestor", 1, RINKEBY), &vec![]), Ok(1));
    assert!(ledger.obligations_of(0).is_empty());
    assert_eq!(ledger.transaction(1).unwrap().tx_id, 1);
}

#[test]
fn mark_submitted_is_idempotent_for_the_same_hash_only() {
    let mut ledger = Ledger::new();
    ledger.record_transaction(transfer("0xrequestor", 0, RINKEBY), &vec![]).unwrap();
    assert_eq!(ledger.mark_submitted(0, &hash_text(1)), Ok(()));
    let tx = ledger.transaction(0).unwrap();
    assert_eq!(tx.status, TxStatus::Submitted);
    assert_eq!(tx.hash, Some(hash_text(1)));
    assert_eq!(ledger.mark_submitted(0, &hash_text(1)), Ok(()));
    assert_eq!(ledger.mark_submitted(0, &hash_text(2)), Err(LedgerError::InconsistentState));
    assert_eq!(ledger.transaction(0).unwrap().hash, Some(hash_text(1)));
    assert_eq!(ledger.mark_submitted(5, &hash_text(1)), Err(LedgerError::InconsistentState));
    assert!(ledger.unsent_transactions(RINKEBY).is_empty());
    assert_eq!(ledger.unconfirmed_transactions(RINKEBY).len(), 1);
}

#[test]
fn mark_submitted_after_the_verdict_is_refused() {
    let mut ledger = Ledger::new();
    ledger.record_transaction(transfer("0xrequestor", 0, RINKEBY), &vec![]).unwrap();
    ledger.mark_submitted(0, &hash_text(1)).unwrap();
    ledger.mark_confirmed_success(0).unwrap();
    assert_eq!(ledger.mark_submitted(0, &hash_text(1)), Err(LedgerError::InconsistentState));
    assert_eq!(ledger.transaction(0).unwrap().status, TxStatus::ConfirmedSuccess);
}

#[test]
fn confirmed_success_confirms_the_carried_obligations() {
    let mut ledger = Ledger::new();
    ledger.record_obligation(owed("O1", "0xrequestor", 5, RINKEBY)).unwrap();
    ledger.record_obligation(owed("O2", "0xrequestor", 7, RINKEBY)).unwrap();
    ledger.record_obligation(owed("O3", "0xrequestor", 9, RINKEBY)).unwrap();
    let orders = vec!["O1".to_string(), "O2".to_string()];
    ledger.record_transaction(transfer("0xrequestor", 0, RINKEBY), &orders).unwrap();
    assert_eq!(ledger.mark_confirmed_success(0), Err(LedgerError::InconsistentState));
    ledger.mark_submitted(0, &hash_text(1)).unwrap();
    let affected = ledger.mark_confirmed_success(0).unwrap();
    assert_eq!(affected.len(), 2);
    assert_eq!(affected[0].order_id, "O1");
    assert_eq!(affected[0].status, ObligationStatus::Confirmed);
    assert_eq!(affected[1].order_id, "O2");
    assert_eq!(ledger.transaction(0).unwrap().status, TxStatus::ConfirmedSuccess);
    assert_eq!(ledger.obligation("O3").unwrap().status, ObligationStatus::Pending);
    let again = ledger.mark_confirmed_success(0).unwrap();
    assert_eq!(again, affected);
    assert_eq!(ledger.mark_confirmed_failure(0), Err(LedgerError::InconsistentState));
    assert_eq!(ledger.transaction(0).unwrap().status, TxStatus::ConfirmedSuccess);
    assert_eq!(ledger.mark_obligation_failed("O1"), Err(LedgerError::InconsistentState));
    assert_eq!(ledger.obligation("O1").unwrap().status, ObligationStatus::Confirmed);
}

#[test]
fn confirmed_failure_marks_the_transaction_only() {
    let mut ledger = Ledger::new();
    ledger.record_obligation(owed("O1", "0xrequestor", 5, RINKEBY)).unwrap();
    let orders = vec!["O1".to_string()];
    ledger.record_transaction(transfer("0xrequestor", 0, RINKEBY), &orders).unwrap();
    ledger.mark_submitted(0, &hash_text(1)).unwrap();
    let affected = ledger.mark_confirmed_failure(0).unwrap();
    assert_eq!(affected.len(), 1);
    assert_eq!(affected[0].status, ObligationStatus::Sent);
    assert_eq!(ledger.transaction(0).unwrap().status, TxStatus::ConfirmedFailure);
    assert_eq!(ledger.mark_confirmed_failure(0).unwrap(), affected);
    assert_eq!(ledger.mark_confirmed_success(0), Err(LedgerError::InconsistentState));
    assert_eq!(ledger.mark_confirmed_failure(3), Err(LedgerError::InconsistentState));
}

#[test]
fn giving_up_an_obligation() {
    let mut ledger = Ledger::new();
    ledger.record_obligation(owed("O1", "0xrequestor", 5, RINKEBY)).unwrap();
    ledger.record_obligation(owed("O2", "0xrequestor", 7, RINKEBY)).unwrap();
    let orders = vec!["O2".to_string()];
    ledger.record_transaction(transfer("0xrequestor", 0, RINKEBY), &orders).unwrap();
    assert_eq!(ledger.mark_obligation_failed("O1"), Ok(()));
    assert_eq!(ledger.mark_obligation_failed("O2"), Ok(()));
    assert_eq!(ledger.mark_obligation_failed("O2"), Ok(()));
    assert_eq!(ledger.mark_obligation_failed("O3"), Err(LedgerError::InconsistentState));
    assert_eq!(ledger.obligation("O1").unwrap().status, ObligationStatus::Failed);
    assert_eq!(ledger.obligation("O1").unwrap().tx_id, None);
    assert_eq!(ledger.obligation("O2").unwrap().status, ObligationStatus::Failed);
    assert_eq!(ledger.obligation("O2").unwrap().tx_id, Some(0));
}

#[test]
fn first_obligation_is_found_by_the_hash_of_its_transaction() {
    let mut ledger = Ledger::new();
    ledger.record_obligation(owed("O1", "0xrequestor", 5, RINKEBY)).unwrap();
    ledger.record_obligation(owed("O2", "0xrequestor", 7, RINKEBY)).unwrap();
    ledger.record_obligation(owed("O3", "0xrequestor", 9, RINKEBY)).unwrap();
    ledger
        .record_transaction(transfer("0xrequestor", 0, RINKEBY), &vec!["O2".to_string()])
        .unwrap();
    ledger
        .record_transaction(
            transfer("0xrequestor", 1, RINKEBY),
            &vec!["O3".to_string(), "O1".to_string()],
        )
        .unwrap();
    assert_eq!(ledger.first_obligation_for_transaction(&hash_text(2)), None);
    ledger.mark_submitted(0, &hash_text(1)).unwrap();
    ledger.mark_submitted(1, &hash_text(2)).unwrap();
    assert_eq!(ledger.first_obligation_for_transaction(&hash_text(1)).unwrap().order_id, "O2");
    assert_eq!(ledger.first_obligation_for_transaction(&hash_text(2)).unwrap().order_id, "O1");
    assert_eq!(ledger.first_obligation_for_transaction(&hash_text(3)), None);
}

#[test]
fn highest_submitted_nonce_skips_unsent_and_foreign_transactions() {
    let mut ledger = Ledger::new();
    assert_eq!(ledger.highest_submitted_nonce("0xrequestor", RINKEBY), None);
    ledger.record_transaction(transfer("0xrequestor", 4, RINKEBY), &vec![]).unwrap();
    ledger.record_transaction(transfer("0xrequestor", 9, RINKEBY), &vec![]).unwrap();
    ledger.record_transaction(transfer("0xother", 30, RINKEBY), &vec![]).unwrap();
    ledger.record_transaction(transfer("0xrequestor", 40, MAINNET), &vec![]).unwrap();
    ledger.record_transaction(transfer("0xrequestor", 2, RINKEBY), &vec![]).unwrap();
    assert_eq!(ledger.highest_submitted_nonce("0xrequestor", RINKEBY), None);
    ledger.mark_submitted(0, &hash_text(1)).unwrap();
    ledger.mark_submitted(2, &hash_text(2)).unwrap();
    ledger.mark_submitted(3, &hash_text(3)).unwrap();
    ledger.mark_submitted(4, &hash_text(4)).unwrap();
    ledger.mark_confirmed_failure(4).unwrap();
    assert_eq!(ledger.highest_submitted_nonce("0xrequestor", RINKEBY), Some(4));
    assert_eq!(ledger.highest_submitted_nonce("0xother", RINKEBY), Some(30));
    assert_eq!(ledger.highest_submitted_nonce("0xrequestor", MAINNET), Some(40));
    ledger.mark_submitted(1, &hash_text(5)).unwrap();
    assert_eq!(ledger.highest_submitted_nonce("0xrequestor", RINKEBY), Some(9));
}

#[test]
fn copy_of_a_ledger_holds_the_same_records() {
    let mut ledger = Ledger::new();
    ledger.record_obligation(owed("O1", "0xrequestor", 5, RINKEBY)).unwrap();
    ledger
        .record_transaction(transfer("0xrequestor", 0, RINKEBY), &vec!["O1".to_string()])
        .unwrap();
    let mut copy = ledger.clone();
    assert_eq!(copy.obligation("O1"), ledger.obligation("O1"));
    assert_eq!(copy.transaction(0), ledger.transaction(0));
    copy.mark_submitted(0, &hash_text(1)).unwrap();
    assert_eq!(ledger.transaction(0).unwrap().status, TxStatus::Unsent);
}

fn stored(tx_id: usize, status: TxStatus, hash: Option<String>) -> erc20_cron::model::Transaction {
    erc20_cron::model::Transaction {
        tx_id,
        encoded: vec![1],
        network: RINKEBY,
        kind: TxKind::Transfer,
        sender: "0xrequestor".to_string(),
        nonce: 0,
        hash,
        status,
    }
}

#[test]
fn ledger_is_restored_from_its_records() {
    let mut ledger = Ledger::new();
    ledger.record_obligation(owed("O1", "0xrequestor", 5, RINKEBY)).unwrap();
    ledger.record_obligation(owed("O2", "0xrequestor", 7, RINKEBY)).unwrap();
    ledger.record_obligation(owed("O3", "0xrequestor", 9, RINKEBY)).unwrap();
    ledger
        .record_transaction(transfer("0xrequestor", 0, RINKEBY), &vec!["O1".to_string()])
        .unwrap();
    ledger
        .record_transaction(transfer("0xrequestor", 1, RINKEBY), &vec!["O2".to_string()])
        .unwrap();
    ledger.mark_submitted(0, &hash_text(1)).unwrap();
    ledger.mark_confirmed_success(0).unwrap();
    ledger.mark_obligation_failed("O3").unwrap();
    let restored = Ledger::restore(ledger.obligations(), ledger.transactions()).unwrap();
    assert_eq!(restored, ledger);
    assert_eq!(restored.obligations().len(), 3);
    assert_eq!(restored.transactions().len(), 2);
    assert_eq!(restored.obligation("O1").unwrap().status, ObligationStatus::Confirmed);
    assert_eq!(restored.unsent_transactions(RINKEBY).len(), 1);
    assert_eq!(Ledger::restore(vec![], vec![]).unwrap(), Ledger::new());
}

#[test]
fn records_that_do_not_fit_together_are_refused() {
    let submitted = || stored(0, TxStatus::Submitted, Some(hash_text(1)));
    let bound = |order: &str, status: ObligationStatus, tx_id: Option<usize>| {
        let mut o = owed(order, "0xrequestor", 1, RINKEBY);
        o.status = status;
        o.tx_id = tx_id;
        o
    };
    let refused = Err(LedgerError::InconsistentState);
    // A transaction whose id is not its position.
    assert_eq!(Ledger::restore(vec![], vec![stored(1, TxStatus::Unsent, None)]), refused);
    // A hash before submission, none after.
    assert_eq!(
        Ledger::restore(vec![], vec![stored(0, TxStatus::Unsent, Some(hash_text(1)))]),
        refused
    );
    assert_eq!(Ledger::restore(vec![], vec![stored(0, TxStatus::Submitted, None)]), refused);
    assert_eq!(Ledger::restore(vec![], vec![stored(0, TxStatus::ConfirmedFailure, None)]), refused);
    // One order id twice.
    assert_eq!(
        Ledger::restore(
            vec![
                bound("O1", ObligationStatus::Pending, None),
                bound("O2", ObligationStatus::Pending, None),
                bound("O1", ObligationStatus::Failed, None),
            ],
            vec![]
        ),
        refused
    );
    // Status and transaction that do not go together.
    for (status, tx_id) in [
        (ObligationStatus::Pending, Some(0)),
        (ObligationStatus::Sent, None),
        (ObligationStatus::Confirmed, None),
        (ObligationStatus::Sent, Some(1)),
        (ObligationStatus::Failed, Some(1)),
        (ObligationStatus::Confirmed, Some(0)),
    ] {
        assert_eq!(
            Ledger::restore(vec![bound("O1", status, tx_id)], vec![submitted()]),
            refused,
            "{status:?} {tx_id:?}"
        );
    }
    // The same records where they do go together.
    for (status, tx_id) in [
        (ObligationStatus::Pending, None),
        (ObligationStatus::Sent, Some(0)),
        (ObligationStatus::Failed, Some(0)),
        (ObligationStatus::Failed, None),
    ] {
        assert!(Ledger::restore(vec![bound("O1", status, tx_id)], vec![submitted()]).is_ok());
    }
    let settled = stored(0, TxStatus::ConfirmedSuccess, Some(hash_text(1)));
    assert!(
        Ledger::restore(vec![bound("O1", ObligationStatus::Confirmed, Some(0))], vec![settled])
            .is_ok()
    );
}
