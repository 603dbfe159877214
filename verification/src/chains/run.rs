//! Whole runs of an ingestion: what holds of the records that a run hands to
//! the store, whatever the ledger and the store answer.

use crate::chains::solana::consistent;
use crate::chains::solana::ingest_start;
use crate::chains::solana::lemma_step_keeps_consistent;
use crate::chains::solana::ingest_step;
use crate::chains::solana::IngestActionView;
use crate::chains::solana::IngestEventView;
use crate::chains::solana::IngestionView;
use crate::chains::solana::Phase;
use crate::chains::solana::TokenAddressView;
use crate::chains::types::balance_record;
use crate::chains::types::BalanceParamsView;
use crate::chains::types::BlockTime;
use crate::db::keys_distinct;
use crate::db::law_insert_twice_is_insert_once;
use crate::db::same_key;
use crate::db::upsert_all;
use crate::rpc_client::AdapterError;
use vstd::prelude::*;

verus! {

/// What one step of a run takes in: the outcome of the action named last, and
/// the calendar reading that goes with it.
pub struct IngestInput {
    pub event: IngestEventView,
    pub reading: Option<BlockTime>,
}

/// The records that a run hands to the store, in order, when it starts in
/// `state` and takes in `inputs` one after the other.
pub open spec fn writes(state: IngestionView, inputs: Seq<IngestInput>) -> Seq<BalanceParamsView>
    decreases inputs.len(),
{
    if inputs.len() == 0 {
        Seq::empty()
    } else {
        let (next, step) = ingest_step(state, inputs[0].event, inputs[0].reading);
        let later = writes(next, inputs.drop_first());
        match step.action {
            IngestActionView::WriteBalance(record) => seq![record] + later,
            _ => later,
        }
    }
}

/// The position from which on the references of `state` may still give records.
spec fn frontier(state: IngestionView) -> int {
    match state.phase {
        Phase::Listing => 0,
        Phase::Fetching => state.position as int,
        Phase::Writing => state.position as int + 1,
        Phase::Marking => state.pager.collected.len() as int,
        Phase::Done => state.pager.collected.len() as int,
    }
}

/// The positions, among the references, of the transactions whose records a
/// run hands to the store: one for each record of `writes`, in the same order.
spec fn write_positions(state: IngestionView, inputs: Seq<IngestInput>) -> Seq<int>
    decreases inputs.len(),
{
    if inputs.len() == 0 {
        Seq::empty()
    } else {
        let (next, step) = ingest_step(state, inputs[0].event, inputs[0].reading);
        let later = write_positions(next, inputs.drop_first());
        match step.action {
            IngestActionView::WriteBalance(_) => seq![state.position as int] + later,
            _ => later,
        }
    }
}

/// From the end of the listing on, the records of a run are about the run's
/// account and about references that the listing collected, at rising
/// positions.
proof fn lemma_writes_follow_references(state: IngestionView, inputs: Seq<IngestInput>)
    requires
        consistent(state),
        !(state.phase is Listing),
    ensures
        write_positions(state, inputs).len() == writes(state, inputs).len(),
        forall|i: int|
            0 <= i < writes(state, inputs).len() ==> {
                &&& frontier(state) <= (#[trigger] write_positions(state, inputs)[i])
                    < state.pager.collected.len()
                &&& writes(state, inputs)[i].transaction_has
                    == state.pager.collected[write_positions(state, inputs)[i]]
                &&& writes(state, inputs)[i].id == state.id
            },
        forall|i: int, j: int|
            0 <= i < j < writes(state, inputs).len() ==> (#[trigger] write_positions(
                state,
                inputs,
            )[i]) < (#[trigger] write_positions(state, inputs)[j]),
    decreases inputs.len(),
{
    if inputs.len() > 0 {
        let (next, step) = ingest_step(state, inputs[0].event, inputs[0].reading);
        lemma_step_keeps_consistent(state, inputs[0].event, inputs[0].reading);
        lemma_writes_follow_references(next, inputs.drop_first());
        let later = writes(next, inputs.drop_first());
        let later_at = write_positions(next, inputs.drop_first());
        let records = writes(state, inputs);
        let at = write_positions(state, inputs);
        match step.action {
            IngestActionView::WriteBalance(record) => {
                assert(state.phase is Fetching);
                assert(records == seq![record] + later);
                assert(at == seq![state.position as int] + later_at);
                assert forall|i: int| 0 < i < records.len() implies records[i] == later[i - 1]
                    && #[trigger] at[i] == later_at[i - 1] by {}
                assert forall|i: int, j: int| 0 <= i < j < records.len() implies (#[trigger] at[i])
                    < (#[trigger] at[j]) by {
                    assert(at[j] == later_at[j - 1]);
                    if i > 0 {
                        assert(at[i] == later_at[i - 1]);
                    }
                }
            },
            _ => {
                assert(records == later);
                assert(at == later_at);
            },
        }
    }
}

/// The records of a run are about the run's account and about transactions
/// that are all different.
proof fn lemma_writes_are_distinct(state: IngestionView, inputs: Seq<IngestInput>)
    requires
        consistent(state),
    ensures
        forall|i: int| 0 <= i < writes(state, inputs).len() ==> (#[trigger] writes(
            state,
            inputs,
        )[i]).id == state.id,
        forall|i: int, j: int|
            0 <= i < j < writes(state, inputs).len() ==> (#[trigger] writes(
                state,
                inputs,
            )[i]).transaction_has != (#[trigger] writes(state, inputs)[j]).transaction_has,
    decreases inputs.len(),
{
    if state.phase is Listing {
        if inputs.len() > 0 {
            let (next, step) = ingest_step(state, inputs[0].event, inputs[0].reading);
            lemma_step_keeps_consistent(state, inputs[0].event, inputs[0].reading);
            lemma_writes_are_distinct(next, inputs.drop_first());
            assert(writes(state, inputs) == writes(next, inputs.drop_first()));
        }
    } else {
        lemma_writes_follow_references(state, inputs);
        let records = writes(state, inputs);
        let at = write_positions(state, inputs);
        assert forall|i: int| 0 <= i < records.len() implies (#[trigger] records[i]).id
            == state.id by {
            assert(at[i] < state.pager.collected.len());
        }
        assert forall|i: int, j: int| 0 <= i < j < records.len() implies (
        #[trigger] records[i]).transaction_has != (#[trigger] records[j]).transaction_has by {
            assert(at[i] < at[j]);
            assert(state.pager.collected[at[i]] != state.pager.collected[at[j]]);
        }
    }
}

/// Each transaction gives at most one record: whatever the ledger and the
/// store answer, the records that one run hands to the store are all about
/// the run's account, and no two of them are about the same transaction.
pub proof fn law_run_writes_each_transaction_once(
    token: TokenAddressView,
    canonical: Option<Seq<char>>,
    max_length: usize,
    inputs: Seq<IngestInput>,
)
    ensures
        keys_distinct(writes(ingest_start(token, canonical, max_length).0, inputs)),
        forall|i: int|
            0 <= i < writes(ingest_start(token, canonical, max_length).0, inputs).len() ==> (
            #[trigger] writes(ingest_start(token, canonical, max_length).0, inputs)[i]).id
                == token.id,
{
    let start = ingest_start(token, canonical, max_length).0;
    assert(consistent(start));
    lemma_writes_are_distinct(start, inputs);
    let records = writes(start, inputs);
    assert forall|i: int, j: int|
        0 <= i < records.len() && 0 <= j < records.len() && i != j implies !same_key(
        #[trigger] records[i],
        #[trigger] records[j],
    ) by {
        if i < j {
            assert(records[i].transaction_has != records[j].transaction_has);
        } else {
            assert(records[j].transaction_has != records[i].transaction_has);
        }
    }
}

/// Ingesting twice stores nothing twice: when the records of a run are
/// inserted into a table without duplicates, the table stays without
/// duplicates, and when the records of the same run are inserted once more,
/// the table is left as it was, with the same number of rows.
pub proof fn law_ingesting_twice_adds_no_record(
    rows: Seq<BalanceParamsView>,
    token: TokenAddressView,
    canonical: Option<Seq<char>>,
    max_length: usize,
    inputs: Seq<IngestInput>,
)
    requires
        keys_distinct(rows),
    ensures
        ({
            let records = writes(ingest_start(token, canonical, max_length).0, inputs);
            let once = upsert_all(rows, records);
            let twice = upsert_all(once, records);
            keys_distinct(once) && twice == once && twice.len() == once.len()
        }),
{
    let records = writes(ingest_start(token, canonical, max_length).0, inputs);
    law_insert_twice_is_insert_once(rows, records);
}

/// One failed transaction does not end a run: when the detail of the
/// transaction in hand cannot be found or decoded, or gives no record, the
/// ingestion passes it over, says why, counts no record, and turns to the
/// next reference or, behind the last one, to marking the account inspected.
pub proof fn law_failed_transaction_is_passed_over(
    state: IngestionView,
    event: IngestEventView,
    reading: Option<BlockTime>,
)
    requires
        state.phase is Fetching,
        match event {
            IngestEventView::Transaction(Ok(detail)) => balance_record(
                state.id,
                state.address,
                state.pager.collected[state.position as int],
                detail,
                reading,
            ) is Err,
            IngestEventView::Transaction(Err(error)) => error != AdapterError::Transport,
            _ => false,
        },
    ensures
        ({
            let (next, step) = ingest_step(state, event, reading);
            &&& step.skipped is Some
            &&& next.written == state.written
            &&& next.position == state.position + 1
            &&& next.pager == state.pager
            &&& if state.position + 1 < state.pager.collected.len() {
                next.phase is Fetching && step.action == IngestActionView::FetchTransaction(
                    state.pager.collected[state.position as int + 1],
                )
            } else {
                next.phase is Marking && step.action == IngestActionView::MarkInspected(state.id)
            }
        }),
{
}

} // verus!
