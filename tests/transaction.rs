use fe2o3_amqp::definitions::DeliveryState;
use fe2o3_amqp::transaction::{TransactionError, TransactionManager, TransactionManagerBuilder};

#[test]
fn declare_post_commit_and_rollback() {
    let builder = TransactionManagerBuilder { first_txn_id: 0xA5 };
    let mut tm = TransactionManager::new(&builder);
    let declared = tm.on_declare().unwrap();
    let txn_id = match declared {
        DeliveryState::Declared { txn_id } => txn_id,
        other => panic!("unexpected {:?}", other),
    };
    assert_eq!(txn_id, vec![0xA5]);
    tm.post_transfer(&txn_id, b"m1".to_vec()).unwrap();
    // nothing is visible until the commit
    let committed = tm.discharge(&txn_id, false).unwrap();
    assert_eq!(committed, vec![b"m1".to_vec()]);
    assert_eq!(tm.discharge(&txn_id, false), Err(TransactionError::UnknownId));

    let second = tm.allocate_transaction_id().unwrap();
    assert_eq!(second, vec![0xA6]);
    tm.post_transfer(&second, b"m2".to_vec()).unwrap();
    let rolled_back = tm.discharge(&second, true).unwrap();
    assert!(rolled_back.is_empty());
    assert_eq!(tm.post_transfer(&second, b"m3".to_vec()), Err(TransactionError::UnknownId));
}

#[test]
fn transaction_ids_run_out() {
    let builder = TransactionManagerBuilder { first_txn_id: u32::MAX as u64 };
    let mut tm = TransactionManager::new(&builder);
    assert_eq!(tm.allocate_transaction_id().unwrap(), vec![255, 255, 255, 255]);
    assert_eq!(tm.allocate_transaction_id(), Err(TransactionError::IdsExhausted));
    assert_eq!(TransactionManagerBuilder::new().first_txn_id, 0);
}

#[test]
fn transactional_transfers_wait_for_the_commit() {
    let mut tm = TransactionManager::new(&TransactionManagerBuilder { first_txn_id: 0xA5 });
    let txn_id = tm.allocate_transaction_id().unwrap();
    let state = Some(DeliveryState::TransactionalState { txn_id: txn_id.clone(), outcome: None });
    assert_eq!(tm.route_transfer(&state, b"m".to_vec()), Ok(None));
    assert_eq!(tm.route_transfer(&Some(DeliveryState::Accepted), b"now".to_vec()), Ok(Some(b"now".to_vec())));
    assert_eq!(tm.route_transfer(&None, b"x".to_vec()), Ok(Some(b"x".to_vec())));
    let unknown = Some(DeliveryState::TransactionalState { txn_id: vec![1, 2], outcome: None });
    assert_eq!(tm.route_transfer(&unknown, b"y".to_vec()), Err(TransactionError::UnknownId));
    assert_eq!(tm.discharge(&txn_id, false).unwrap(), vec![b"m".to_vec()]);
}
