//! The table of balance records: at most one record for each account and
//! transaction, whatever is inserted and however often.

use crate::chains::types::BalanceParams;
use crate::chains::types::BalanceParamsView;
use vstd::prelude::*;

verus! {

/// Two records are about the same account and the same transaction.
pub open spec fn same_key(a: BalanceParamsView, b: BalanceParamsView) -> bool {
    a.id == b.id && a.transaction_has == b.transaction_has
}

/// The table holds a record for the account and transaction of `record`.
pub open spec fn holds_key(rows: Seq<BalanceParamsView>, record: BalanceParamsView) -> bool {
    exists|i: int| 0 <= i < rows.len() && same_key(#[trigger] rows[i], record)
}

/// No two rows are about the same account and transaction.
pub open spec fn keys_distinct(rows: Seq<BalanceParamsView>) -> bool {
    forall|i: int, j: int|
        0 <= i < rows.len() && 0 <= j < rows.len() && i != j ==> !same_key(
            #[trigger] rows[i],
            #[trigger] rows[j],
        )
}

/// The table after `record` is inserted: unchanged where it holds a record
/// for the same account and transaction, longer by `record` otherwise.
pub open spec fn upsert(rows: Seq<BalanceParamsView>, record: BalanceParamsView) -> Seq<
    BalanceParamsView,
> {
    if holds_key(rows, record) {
        rows
    } else {
        rows.push(record)
    }
}

/// The table after each of `records` is inserted, in order.
pub open spec fn upsert_all(rows: Seq<BalanceParamsView>, records: Seq<BalanceParamsView>) -> Seq<
    BalanceParamsView,
>
    decreases records.len(),
{
    if records.len() == 0 {
        rows
    } else {
        upsert(upsert_all(rows, records.drop_last()), records.last())
    }
}

/// The rows of a table as mathematical values.
pub open spec fn rows_view(rows: Seq<BalanceParams>) -> Seq<BalanceParamsView> {
    rows.map_values(|row: BalanceParams| row@)
}

/// Inserting keeps the rows that were there, in place, and keeps them distinct.
pub proof fn lemma_upsert_all_extends(rows: Seq<BalanceParamsView>, records: Seq<BalanceParamsView>)
    ensures
        rows.len() <= upsert_all(rows, records).len(),
        upsert_all(rows, records).subrange(0, rows.len() as int) == rows,
        keys_distinct(rows) ==> keys_distinct(upsert_all(rows, records)),
        forall|i: int| 0 <= i < records.len() ==> holds_key(upsert_all(rows, records), records[i]),
    decreases records.len(),
{
    if records.len() == 0 {
        assert(rows.subrange(0, rows.len() as int) =~= rows);
    } else {
        let shorter = records.drop_last();
        let before = upsert_all(rows, shorter);
        let after = upsert_all(rows, records);
        lemma_upsert_all_extends(rows, shorter);
        assert(after.subrange(0, rows.len() as int) =~= before.subrange(0, rows.len() as int));
        assert forall|i: int| 0 <= i < records.len() implies holds_key(after, records[i]) by {
            if i < shorter.len() {
                assert(shorter[i] == records[i]);
                let at = choose|at: int| 0 <= at < before.len() && same_key(before[at], records[i]);
                assert(same_key(after[at], records[i]));
            } else if holds_key(before, records.last()) {
            } else {
                assert(same_key(after[after.len() - 1], records[i]));
            }
        }
    }
}

/// Records whose accounts and transactions the table holds already leave it unchanged.
pub proof fn lemma_upsert_all_of_held(rows: Seq<BalanceParamsView>, records: Seq<BalanceParamsView>)
    requires
        forall|i: int| 0 <= i < records.len() ==> holds_key(rows, records[i]),
    ensures
        upsert_all(rows, records) == rows,
    decreases records.len(),
{
    if records.len() > 0 {
        let shorter = records.drop_last();
        assert forall|i: int| 0 <= i < shorter.len() implies holds_key(rows, shorter[i]) by {
            assert(shorter[i] == records[i]);
        }
        lemma_upsert_all_of_held(rows, shorter);
        assert(holds_key(rows, records[records.len() - 1]));
    }
}

/// Inserting is idempotent: a table without duplicates stays without
/// duplicates, and inserting the same records a second time leaves the table
/// as it was after the first time, row for row.
pub proof fn law_insert_twice_is_insert_once(
    rows: Seq<BalanceParamsView>,
    records: Seq<BalanceParamsView>,
)
    requires
        keys_distinct(rows),
    ensures
        keys_distinct(upsert_all(rows, records)),
        upsert_all(upsert_all(rows, records), records) == upsert_all(rows, records),
        upsert_all(upsert_all(rows, records), records).len() == upsert_all(rows, records).len(),
{
    lemma_upsert_all_extends(rows, records);
    lemma_upsert_all_of_held(upsert_all(rows, records), records);
}

/// Whether `rows` holds a record for the account `id` and the transaction `signature`.
fn holds_record(rows: &Vec<BalanceParams>, id: u128, signature: &String) -> (held: bool)
    ensures
        held == exists|i: int|
            0 <= i < rows.len() && (#[trigger] rows[i]).id == id && rows[i].transaction_has@
                == signature@,
{
    let mut index: usize = 0;
    while index < rows.len()
        invariant
            index <= rows.len(),
            forall|i: int|
                0 <= i < index ==> !((#[trigger] rows[i]).id == id && rows[i].transaction_has@
                    == signature@),
        decreases rows.len() - index,
    {
        if rows[index].id == id && rows[index].transaction_has == *signature {
            return true;
        }
        index += 1;
    }
    false
}

/// Inserts a balance record into a table held in memory, unless the table
/// holds a record for the same account and transaction: then the table stays
/// as it is. The result says whether the record was inserted.
pub fn insert_balance(rows: &mut Vec<BalanceParams>, params: BalanceParams) -> (inserted: bool)
    ensures
        rows_view(final(rows)@) == upsert(rows_view(old(rows)@), params@),
        inserted == !holds_key(rows_view(old(rows)@), params@),
{
    let ghost before = rows_view(rows@);
    let held = holds_record(rows, params.id, &params.transaction_has);
    proof {
        if held {
            let i = choose|i: int|
                0 <= i < rows.len() && (#[trigger] rows[i]).id == params.id
                    && rows[i].transaction_has@ == params.transaction_has@;
            assert(same_key(before[i], params@));
        } else {
            assert forall|i: int| 0 <= i < before.len() implies !same_key(
                #[trigger] before[i],
                params@,
            ) by {
                assert(before[i] == rows[i]@);
            }
        }
    }
    if held {
        false
    } else {
        let ghost record = params@;
        rows.push(params);
        assert(rows_view(rows@) =~= before.push(record));
        true
    }
}

} // verus!
