//! The balance record and the calendar time it carries.

use crate::rpc_client::balance_at;
use crate::rpc_client::get_balance_at_signature;
use crate::rpc_client::ExtractError;
use crate::rpc_client::TransactionDetail;
use crate::rpc_client::TransactionDetailView;
use chrono::Datelike;
use chrono::NaiveDateTime;
use chrono::Timelike;
use vstd::prelude::*;

verus! {

/// A calendar date and time of day in UTC, as read off an epoch second.
#[derive(Debug, Clone, Copy, PartialEq, Eq, Structural)]
pub struct BlockTime {
    pub year: i32,
    pub month: u32,
    pub day: u32,
    pub hour: u32,
    pub minute: u32,
    pub second: u32,
    pub nanosecond: u32,
}

/// One balance record: the balances of an account right before and right
/// after one transaction, with the fee paid and the transaction's block time.
/// The account id and the transaction reference together identify the record.
#[derive(Debug, Clone, PartialEq, Eq)]
pub struct BalanceParams {
    pub id: u128,
    pub block_time: BlockTime,
    pub post_balance: u64,
    pub pre_balance: u64,
    pub fee: u64,
    pub transfer_type: i16,
    pub transaction_has: String,
}

pub struct BalanceParamsView {
    pub id: u128,
    pub block_time: BlockTime,
    pub post_balance: u64,
    pub pre_balance: u64,
    pub fee: u64,
    pub transfer_type: i16,
    pub transaction_has: Seq<char>,
}

impl View for BalanceParams {
    type V = BalanceParamsView;

    open spec fn view(&self) -> BalanceParamsView {
        BalanceParamsView {
            id: self.id,
            block_time: self.block_time,
            post_balance: self.post_balance,
            pre_balance: self.pre_balance,
            fee: self.fee,
            transfer_type: self.transfer_type,
            transaction_has: self.transaction_has@,
        }
    }
}

/// The calendar reading that `chrono` gives for an epoch second, where it has one.
pub uninterp spec fn calendar_of_epoch(seconds: i64) -> Option<BlockTime>;

/// Calls `chrono::NaiveDateTime::from_timestamp_opt(seconds, 0)` and reads the
/// calendar fields off what it returns. Trusted: the reading is a function of
/// `seconds` alone, and a reading made with zero nanoseconds has a zero
/// sub-second part.
#[verifier::external_body]
#[allow(deprecated)]
pub(crate) fn calendar_from_epoch(seconds: i64) -> (reading: Option<BlockTime>)
    ensures
        reading == calendar_of_epoch(seconds),
        reading matches Some(time) ==> time.nanosecond == 0,
{
    NaiveDateTime::from_timestamp_opt(seconds, 0).map(
        |t| BlockTime {
            year: t.year(),
            month: t.month(),
            day: t.day(),
            hour: t.hour(),
            minute: t.minute(),
            second: t.second(),
            nanosecond: t.nanosecond(),
        },
    )
}

/// The calendar reading of a transaction's block time: none where the ledger
/// reported no block time or the calendar does not reach that far.
pub open spec fn reading_of(block_time: Option<i64>) -> Option<BlockTime> {
    match block_time {
        Some(seconds) => calendar_of_epoch(seconds),
        None => None,
    }
}

/// The balance record of the account `id`, known to the ledger as `address`,
/// for the transaction `signature` with detail `transaction`, where `reading`
/// is the calendar reading of the transaction's block time.
///
/// Balances and transfer type are those of `balance_at`, the fee is the one
/// the ledger reported. A transaction without block time, or with one that
/// has no calendar reading, gives no record.
pub open spec fn balance_record(
    id: u128,
    address: Seq<char>,
    signature: Seq<char>,
    transaction: TransactionDetailView,
    reading: Option<BlockTime>,
) -> Result<BalanceParamsView, ExtractError> {
    match balance_at(transaction, address) {
        Err(error) => Err(error),
        Ok(balance) => match (transaction.block_time, reading) {
            (None, _) => Err(ExtractError::MissingBlockTime),
            (Some(_), None) => Err(ExtractError::BlockTimeOutOfRange),
            (Some(_), Some(time)) => Ok(
                BalanceParamsView {
                    id,
                    block_time: time,
                    post_balance: balance.balance_after,
                    pre_balance: balance.balance_before,
                    fee: transaction.meta.unwrap().fee,
                    transfer_type: balance.transaction_type,
                    transaction_has: signature,
                },
            ),
        },
    }
}

/// An assembled record, or the reason why there is none, as a mathematical value.
pub open spec fn record_view(record: Result<BalanceParams, ExtractError>) -> Result<
    BalanceParamsView,
    ExtractError,
> {
    match record {
        Ok(params) => Ok(params@),
        Err(error) => Err(error),
    }
}

/// Assembles the balance record of one account for one transaction from the
/// transaction's detail and the calendar reading of its block time.
pub fn balance_params_at(
    id: u128,
    address: &String,
    signature: &String,
    transaction: &TransactionDetail,
    reading: Option<BlockTime>,
) -> (record: Result<BalanceParams, ExtractError>)
    ensures
        record_view(record) == balance_record(id, address@, signature@, transaction@, reading),
{
    let balance = match get_balance_at_signature(transaction, address) {
        Ok(balance) => balance,
        Err(error) => {
            return Err(error);
        },
    };
    let fee = match &transaction.meta {
        Some(meta) => meta.fee,
        None => {
            return Err(ExtractError::MissingMeta);
        },
    };
    if transaction.block_time.is_none() {
        return Err(ExtractError::MissingBlockTime);
    }
    match reading {
        None => Err(ExtractError::BlockTimeOutOfRange),
        Some(time) => Ok(
            BalanceParams {
                id,
                block_time: time,
                post_balance: balance.balance_after,
                pre_balance: balance.balance_before,
                fee,
                transfer_type: balance.transaction_type,
                transaction_has: signature.clone(),
            },
        ),
    }
}

/// Assembles the balance record of one account for one transaction, with the
/// block time converted from epoch seconds to calendar time. The calendar
/// time of every record has a zero sub-second part.
pub fn balance_params(
    id: u128,
    address: &String,
    signature: &String,
    transaction: &TransactionDetail,
) -> (record: Result<BalanceParams, ExtractError>)
    ensures
        record_view(record) == balance_record(
            id,
            address@,
            signature@,
            transaction@,
            reading_of(transaction@.block_time),
        ),
        record matches Ok(params) ==> params.block_time.nanosecond == 0,
{
    let reading = match transaction.block_time {
        Some(seconds) => calendar_from_epoch(seconds),
        None => None,
    };
    balance_params_at(id, address, signature, transaction, reading)
}

} // verus!
