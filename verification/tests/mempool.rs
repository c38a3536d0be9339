use zebra_crosslink::rpc::{
    rpc_response_metrics, rpc_span_error_fields, transactions_by_id, txid_to_hex, ErrorCodeLabel,
    MempoolObject, MempoolTx, TransactionDependencies, MAX_MONEY,
};

fn tx(id: u8, size: usize, miner_fee: u64) -> MempoolTx {
    MempoolTx {
        id: [id; 32],
        size,
        miner_fee,
        time: Some(1_700_000_000 + id as i64),
        height: Some(100 + id as u32),
    }
}

#[test]
fn txids_render_in_display_byte_order() {
    let mut id = [0u8; 32];
    id[0] = 0xab;
    id[31] = 0x01;
    let hex = txid_to_hex(&id);
    assert_eq!(hex.len(), 64);
    assert!(hex.starts_with("01"));
    assert!(hex.ends_with("ab"));
}

#[test]
fn lookup_table_indexes_transactions() {
    let txs = vec![tx(1, 10, 1), tx(2, 20, 2)];
    assert_eq!(transactions_by_id(&txs), vec![([1; 32], 0), ([2; 32], 1)]);
}

#[test]
fn mempool_object_counts_direct_dependents_in_the_mempool() {
    let parent = tx(1, 100, 1_000);
    let txs = vec![parent, tx(2, 200, 2_000), tx(3, 300, 3_000)];
    let deps = TransactionDependencies {
        dependencies: vec![([1; 32], vec![[9; 32]])],
        // Transaction 4 depends on the parent but is not in the mempool list.
        dependents: vec![([1; 32], vec![[2; 32], [3; 32], [4; 32]])],
    };
    let object = MempoolObject::from_verified_unmined_tx(&parent, &txs, &deps);

    assert_eq!(object.size(), 100);
    assert_eq!(object.fee(), 1_000);
    assert_eq!(object.modified_fee(), 1_000);
    assert_eq!(object.time(), 1_700_000_001);
    assert_eq!(object.height(), 101);
    assert_eq!(object.descendantcount(), 4);
    assert_eq!(object.descendantsize(), 600);
    assert_eq!(object.descendantfees(), 6_000);
    assert_eq!(object.depends(), &vec!["09".repeat(32)]);
}

#[test]
fn mempool_object_without_dependents_or_metadata() {
    let lone = MempoolTx {
        id: [5; 32],
        size: 42,
        miner_fee: 7,
        time: None,
        height: None,
    };
    let deps = TransactionDependencies {
        dependencies: Vec::new(),
        dependents: Vec::new(),
    };
    let object = MempoolObject::from_verified_unmined_tx(&lone, &[lone], &deps);
    assert_eq!(object.time(), 0);
    assert_eq!(object.height(), 0);
    assert_eq!(object.descendantcount(), 1);
    assert_eq!(object.descendantsize(), 42);
    assert_eq!(object.descendantfees(), 7);
    assert!(object.depends().is_empty());
}

#[test]
fn descendant_fees_above_the_money_supply_count_as_zero() {
    let parent = tx(1, 1, MAX_MONEY);
    let txs = vec![parent, tx(2, 1, 1)];
    let deps = TransactionDependencies {
        dependencies: Vec::new(),
        dependents: vec![([1; 32], vec![[2; 32]])],
    };
    let object = MempoolObject::from_verified_unmined_tx(&parent, &txs, &deps);
    assert_eq!(object.descendantfees(), 0);
    assert_eq!(object.descendantsize(), 2);
}

#[test]
fn rpc_responses_record_status_and_error_code() {
    let ok = rpc_response_metrics(false, Some(-32601));
    assert_eq!(ok.status, "success");
    assert_eq!(ok.error, None);
    let failed = rpc_response_metrics(true, Some(-32601));
    assert_eq!(failed.status, "error");
    assert_eq!(failed.error, Some(ErrorCodeLabel::Code(-32601)));
    assert_eq!(
        rpc_response_metrics(true, None).error,
        Some(ErrorCodeLabel::Unknown)
    );
    assert_eq!(rpc_span_error_fields(true, Some(-1)), (Some("ERROR"), Some(-1)));
    assert_eq!(rpc_span_error_fields(false, Some(-1)), (None, None));
}

#[test]
fn mempool_object_counts_only_direct_dependents_today() {
    let transactions = vec![tx(1, 250, 1_000_000), tx(2, 410, 1_000_000), tx(3, 380, 1_000_000)];

    let parent_id = transactions[0].id;
    let child_id = transactions[1].id;
    let grandchild_id = transactions[2].id;

    // The child spends an output of the parent, the grandchild one of the child.
    let transaction_dependencies = TransactionDependencies {
        dependencies: vec![(child_id, vec![parent_id]), (grandchild_id, vec![child_id])],
        dependents: vec![(parent_id, vec![child_id]), (child_id, vec![grandchild_id])],
    };

    let mempool_object = MempoolObject::from_verified_unmined_tx(
        &transactions[0],
        &transactions,
        &transaction_dependencies,
    );

    assert_eq!(
        mempool_object.descendantcount(),
        2,
        "verbose mempool output counts only the direct child plus itself today"
    );
    assert_eq!(
        mempool_object.descendantsize(),
        (transactions[0].size + transactions[1].size) as u64,
        "verbose mempool output includes only direct child size today"
    );
    assert_eq!(
        mempool_object.descendantfees(),
        2_000_000,
        "verbose mempool output includes only direct child fee today"
    );
}

#[test]
fn dependency_tables_hold_each_id_once() {
    let good = TransactionDependencies {
        dependencies: vec![([2; 32], vec![[1; 32]])],
        dependents: vec![([1; 32], vec![[2; 32], [3; 32]])],
    };
    assert!(good.is_well_formed());
    let repeated_key = TransactionDependencies {
        dependencies: vec![([2; 32], vec![[1; 32]]), ([2; 32], vec![[4; 32]])],
        dependents: Vec::new(),
    };
    assert!(!repeated_key.is_well_formed());
    let repeated_member = TransactionDependencies {
        dependencies: Vec::new(),
        dependents: vec![([1; 32], vec![[2; 32], [2; 32]])],
    };
    assert!(!repeated_member.is_well_formed());
}
