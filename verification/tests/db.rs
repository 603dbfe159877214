use indexer::chains::types::{BalanceParams, BlockTime};
use indexer::db::insert_balance;

fn record(id: u128, reference: &str, post: u64) -> BalanceParams {
    BalanceParams {
        id,
        block_time: BlockTime {
            year: 2023,
            month: 11,
            day: 14,
            hour: 22,
            minute: 13,
            second: 20,
            nanosecond: 0,
        },
        post_balance: post,
        pre_balance: 1,
        fee: 5000,
        transfer_type: 1,
        transaction_has: reference.to_string(),
    }
}

#[test]
fn new_record_is_appended() {
    let mut table = Vec::new();
    assert!(insert_balance(&mut table, record(1, "a", 10)));
    assert!(insert_balance(&mut table, record(1, "b", 20)));
    assert_eq!(table, vec![record(1, "a", 10), record(1, "b", 20)]);
}

#[test]
fn record_for_a_held_account_and_transaction_changes_nothing() {
    let mut table = vec![record(1, "a", 10), record(1, "b", 20)];
    assert!(!insert_balance(&mut table, record(1, "a", 99)));
    assert_eq!(table, vec![record(1, "a", 10), record(1, "b", 20)]);
}

#[test]
fn same_transaction_of_another_account_is_another_record() {
    let mut table = vec![record(1, "a", 10)];
    assert!(insert_balance(&mut table, record(2, "a", 10)));
    assert!(insert_balance(&mut table, record(1, "b", 10)));
    assert_eq!(table.len(), 3);
}

#[test]
fn inserting_the_same_records_again_keeps_the_row_count() {
    let records = vec![record(1, "a", 1), record(1, "b", 2), record(2, "a", 3), record(1, "a", 4)];
    let mut table = Vec::new();
    for r in records.iter() {
        insert_balance(&mut table, r.clone());
    }
    assert_eq!(table.len(), 3);
    let once = table.clone();
    for r in records.iter() {
        assert!(!insert_balance(&mut table, r.clone()));
    }
    assert_eq!(table, once);
}
