use indexer::chains::types::{balance_params, balance_params_at, BalanceParams, BlockTime};
use indexer::rpc_client::{
    get_balance_at_signature, Balance, ExtractError, TransactionDetail, TransactionMeta,
    TRANSFER_CREDIT, TRANSFER_DEBIT, TRANSFER_UNKNOWN,
};

fn detail(keys: &[&str], pre: &[u64], post: &[u64]) -> TransactionDetail {
    TransactionDetail {
        block_time: Some(1_700_000_000),
        meta: Some(TransactionMeta {
            fee: 5000,
            pre_balances: pre.to_vec(),
            post_balances: post.to_vec(),
        }),
        account_keys: Some(keys.iter().map(|k| k.to_string()).collect()),
    }
}

#[test]
fn debited_participant_reads_its_own_balances() {
    let tx = detail(&["A", "B"], &[100, 50], &[80, 70]);
    assert_eq!(
        get_balance_at_signature(&tx, &"A".to_string()),
        Ok(Balance { balance_before: 100, balance_after: 80, transaction_type: TRANSFER_DEBIT })
    );
}

#[test]
fn credited_participant_reads_its_own_balances() {
    let tx = detail(&["A", "B"], &[100, 50], &[80, 70]);
    assert_eq!(
        get_balance_at_signature(&tx, &"B".to_string()),
        Ok(Balance { balance_before: 50, balance_after: 70, transaction_type: TRANSFER_CREDIT })
    );
}

#[test]
fn transfer_type_codes_are_zero_one_two() {
    assert_eq!((TRANSFER_UNKNOWN, TRANSFER_CREDIT, TRANSFER_DEBIT), (0, 1, 2));
}

#[test]
fn unchanged_balance_counts_as_debit() {
    let tx = detail(&["A"], &[42], &[42]);
    assert_eq!(
        get_balance_at_signature(&tx, &"A".to_string()),
        Ok(Balance { balance_before: 42, balance_after: 42, transaction_type: TRANSFER_DEBIT })
    );
}

#[test]
fn absent_address_gives_the_zero_sentinel() {
    let tx = detail(&["A", "B"], &[100, 50], &[80, 70]);
    assert_eq!(
        get_balance_at_signature(&tx, &"C".to_string()),
        Ok(Balance { balance_before: 0, balance_after: 0, transaction_type: TRANSFER_UNKNOWN })
    );
}

#[test]
fn address_match_is_exact() {
    let tx = detail(&["Abc"], &[1], &[2]);
    let sentinel = Balance { balance_before: 0, balance_after: 0, transaction_type: 0 };
    assert_eq!(get_balance_at_signature(&tx, &"abc".to_string()), Ok(sentinel));
    assert_eq!(get_balance_at_signature(&tx, &"Abc ".to_string()), Ok(sentinel));
    assert_eq!(get_balance_at_signature(&tx, &"Ab".to_string()), Ok(sentinel));
}

#[test]
fn empty_account_table_gives_the_zero_sentinel() {
    let tx = detail(&[], &[], &[]);
    assert_eq!(
        get_balance_at_signature(&tx, &"A".to_string()),
        Ok(Balance { balance_before: 0, balance_after: 0, transaction_type: TRANSFER_UNKNOWN })
    );
}

#[test]
fn repeated_address_is_read_at_its_first_position() {
    let tx = detail(&["B", "A", "A"], &[1, 10, 20], &[2, 30, 5]);
    assert_eq!(
        get_balance_at_signature(&tx, &"A".to_string()),
        Ok(Balance { balance_before: 10, balance_after: 30, transaction_type: TRANSFER_CREDIT })
    );
}

#[test]
fn missing_meta_is_an_error() {
    let mut tx = detail(&["A"], &[1], &[2]);
    tx.meta = None;
    assert_eq!(get_balance_at_signature(&tx, &"A".to_string()), Err(ExtractError::MissingMeta));
    assert_eq!(get_balance_at_signature(&tx, &"Z".to_string()), Err(ExtractError::MissingMeta));
}

#[test]
fn missing_meta_comes_before_undecodable_transaction() {
    let tx = TransactionDetail { block_time: Some(1), meta: None, account_keys: None };
    assert_eq!(get_balance_at_signature(&tx, &"A".to_string()), Err(ExtractError::MissingMeta));
}

#[test]
fn undecodable_account_table_is_an_error() {
    let mut tx = detail(&["A"], &[1], &[2]);
    tx.account_keys = None;
    assert_eq!(
        get_balance_at_signature(&tx, &"A".to_string()),
        Err(ExtractError::UndecodableTransaction)
    );
}

#[test]
fn balance_array_too_short_for_the_position_is_an_error() {
    let short_pre = detail(&["A", "B"], &[100], &[80, 70]);
    assert_eq!(
        get_balance_at_signature(&short_pre, &"B".to_string()),
        Err(ExtractError::MissingBalance)
    );
    let short_post = detail(&["A", "B"], &[100, 50], &[80]);
    assert_eq!(
        get_balance_at_signature(&short_post, &"B".to_string()),
        Err(ExtractError::MissingBalance)
    );
    assert_eq!(
        get_balance_at_signature(&short_post, &"A".to_string()),
        Ok(Balance { balance_before: 100, balance_after: 80, transaction_type: TRANSFER_DEBIT })
    );
}

#[test]
fn largest_balances_are_kept_as_they_are() {
    let tx = detail(&["A"], &[u64::MAX - 1], &[u64::MAX]);
    assert_eq!(
        get_balance_at_signature(&tx, &"A".to_string()),
        Ok(Balance {
            balance_before: u64::MAX - 1,
            balance_after: u64::MAX,
            transaction_type: TRANSFER_CREDIT
        })
    );
}

fn november_14() -> BlockTime {
    BlockTime { year: 2023, month: 11, day: 14, hour: 22, minute: 13, second: 20, nanosecond: 0 }
}

#[test]
fn record_holds_balances_fee_reference_and_block_time() {
    let tx = detail(&["A", "B"], &[100, 50], &[80, 70]);
    let record = balance_params(7, &"A".to_string(), &"sig-1".to_string(), &tx);
    assert_eq!(
        record,
        Ok(BalanceParams {
            id: 7,
            block_time: november_14(),
            post_balance: 80,
            pre_balance: 100,
            fee: 5000,
            transfer_type: TRANSFER_DEBIT,
            transaction_has: "sig-1".to_string(),
        })
    );
}

#[test]
fn record_of_a_non_participant_is_the_sentinel_with_fee_and_time() {
    let tx = detail(&["A", "B"], &[100, 50], &[80, 70]);
    let record = balance_params(9, &"C".to_string(), &"sig-2".to_string(), &tx).unwrap();
    assert_eq!((record.pre_balance, record.post_balance, record.transfer_type), (0, 0, 0));
    assert_eq!(record.fee, 5000);
    assert_eq!(record.id, 9);
    assert_eq!(record.block_time, november_14());
}

#[test]
fn record_needs_a_block_time() {
    let mut tx = detail(&["A"], &[1], &[2]);
    tx.block_time = None;
    assert_eq!(
        balance_params(7, &"A".to_string(), &"s".to_string(), &tx),
        Err(ExtractError::MissingBlockTime)
    );
}

#[test]
fn record_needs_a_block_time_within_the_calendar() {
    let mut tx = detail(&["A"], &[1], &[2]);
    tx.block_time = Some(i64::MAX);
    assert_eq!(
        balance_params(7, &"A".to_string(), &"s".to_string(), &tx),
        Err(ExtractError::BlockTimeOutOfRange)
    );
}

#[test]
fn extraction_errors_come_before_block_time_errors() {
    let tx = TransactionDetail { block_time: None, meta: None, account_keys: None };
    assert_eq!(
        balance_params(7, &"A".to_string(), &"s".to_string(), &tx),
        Err(ExtractError::MissingMeta)
    );
}

#[test]
fn record_takes_the_reading_it_is_given() {
    let tx = detail(&["A"], &[1], &[2]);
    let reading = BlockTime { year: 1, month: 2, day: 3, hour: 4, minute: 5, second: 6, nanosecond: 0 };
    let record =
        balance_params_at(7, &"A".to_string(), &"s".to_string(), &tx, Some(reading)).unwrap();
    assert_eq!(record.block_time, reading);
    assert_eq!(
        balance_params_at(7, &"A".to_string(), &"s".to_string(), &tx, None),
        Err(ExtractError::BlockTimeOutOfRange)
    );
}
