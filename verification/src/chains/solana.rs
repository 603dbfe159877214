//! Ingestion of one account's history: which request to make next, and what
//! to do with each answer.
//!
//! The ingestion itself performs no request. It is a state machine: each step
//! takes what the ledger or the store answered and names the next action. The
//! caller performs the action and comes back with its outcome.

use crate::chains::types::balance_params_at;
use crate::chains::types::balance_record;
use crate::chains::types::calendar_from_epoch;
use crate::chains::types::reading_of;
use crate::chains::types::BalanceParams;
use crate::chains::types::BalanceParamsView;
use crate::chains::types::BlockTime;
use crate::rpc_client::get_signatures_for_address;
use crate::rpc_client::lemma_stitch_invariants;
use crate::rpc_client::pager_after;
use crate::rpc_client::request_after;
use crate::rpc_client::AdapterError;
use crate::rpc_client::ExtractError;
use crate::rpc_client::PagerView;
use crate::rpc_client::SignaturePager;
use crate::rpc_client::SignatureRequest;
use crate::rpc_client::SignatureRequestView;
use crate::rpc_client::TransactionDetail;
use crate::rpc_client::TransactionDetailView;
use solana_sdk::pubkey::Pubkey;
use std::str::FromStr;
use vstd::prelude::*;

verus! {

/// How many references an ingestion collects at most unless told otherwise.
pub const DEFAULT_MAX_SIGNATURES: usize = 1000;

/// A tracked account: its id in the store and its address on the ledger.
#[derive(Debug, Clone, PartialEq, Eq)]
pub struct TokenAddress {
    pub id: u128,
    pub address: String,
}

pub struct TokenAddressView {
    pub id: u128,
    pub address: Seq<char>,
}

impl View for TokenAddress {
    type V = TokenAddressView;

    open spec fn view(&self) -> TokenAddressView {
        TokenAddressView { id: self.id, address: self.address@ }
    }
}

/// Why an ingestion ended without completing.
#[derive(Debug, Clone, Copy, PartialEq, Eq, Structural)]
pub enum IngestError {
    /// The account's address is no ledger address.
    InvalidAddress,
    /// The ledger endpoint failed in a way that ends the run.
    Adapter(AdapterError),
    /// The store refused a write.
    Persistence,
    /// An outcome arrived that answers no action of this ingestion.
    UnexpectedEvent,
}

/// Why one transaction was passed over.
#[derive(Debug, Clone, Copy, PartialEq, Eq, Structural)]
pub enum SkipReason {
    /// The transaction could not be fetched.
    Fetch(AdapterError),
    /// No balance record could be derived from the transaction.
    Extract(ExtractError),
}

/// Where an ingestion stands.
#[derive(Debug, Clone, Copy, PartialEq, Eq, Structural)]
pub enum Phase {
    /// Waiting for a page of references.
    Listing,
    /// Waiting for the detail of the transaction at the current position.
    Fetching,
    /// Waiting for the store to take the record of the transaction at the current position.
    Writing,
    /// Waiting for the store to mark the account inspected.
    Marking,
    /// Ended.
    Done,
}

/// The outcome of the action that an ingestion named last.
#[derive(Debug, PartialEq, Eq)]
pub enum IngestEvent {
    /// The endpoint's answer to a request for references.
    Signatures(Result<Vec<String>, AdapterError>),
    /// The endpoint's answer to a request for a transaction's detail.
    Transaction(Result<TransactionDetail, AdapterError>),
    /// Whether the store took the record, or held it already.
    Written(bool),
    /// Whether the store marked the account inspected.
    Inspected(bool),
}

pub enum IngestEventView {
    Signatures(Result<Seq<Seq<char>>, AdapterError>),
    Transaction(Result<TransactionDetailView, AdapterError>),
    Written(bool),
    Inspected(bool),
}

impl View for IngestEvent {
    type V = IngestEventView;

    open spec fn view(&self) -> IngestEventView {
        match self {
            IngestEvent::Signatures(Ok(page)) => IngestEventView::Signatures(Ok(page.deep_view())),
            IngestEvent::Signatures(Err(error)) => IngestEventView::Signatures(Err(*error)),
            IngestEvent::Transaction(Ok(detail)) => IngestEventView::Transaction(Ok(detail@)),
            IngestEvent::Transaction(Err(error)) => IngestEventView::Transaction(Err(*error)),
            IngestEvent::Written(stored) => IngestEventView::Written(*stored),
            IngestEvent::Inspected(marked) => IngestEventView::Inspected(*marked),
        }
    }
}

/// What the caller of an ingestion is to do next.
#[derive(Debug, PartialEq, Eq)]
pub enum IngestAction {
    /// Ask the endpoint for a page of the account's references.
    ListSignatures(SignatureRequest),
    /// Ask the endpoint for the detail of this transaction.
    FetchTransaction(String),
    /// Store this record, unless the store holds one for the same account and transaction.
    WriteBalance(BalanceParams),
    /// Mark the account with this id as inspected now.
    MarkInspected(u128),
    /// Nothing: the ingestion has ended, with the number of records stored or
    /// the reason of its failure.
    Finish(Result<usize, IngestError>),
}

pub enum IngestActionView {
    ListSignatures(SignatureRequestView),
    FetchTransaction(Seq<char>),
    WriteBalance(BalanceParamsView),
    MarkInspected(u128),
    Finish(Result<usize, IngestError>),
}

impl View for IngestAction {
    type V = IngestActionView;

    open spec fn view(&self) -> IngestActionView {
        match self {
            IngestAction::ListSignatures(request) => IngestActionView::ListSignatures(request@),
            IngestAction::FetchTransaction(signature) => IngestActionView::FetchTransaction(
                signature@,
            ),
            IngestAction::WriteBalance(params) => IngestActionView::WriteBalance(params@),
            IngestAction::MarkInspected(id) => IngestActionView::MarkInspected(*id),
            IngestAction::Finish(outcome) => IngestActionView::Finish(*outcome),
        }
    }
}

/// One step of an ingestion: the action to perform next, and the reason for
/// which the transaction just answered for was passed over, if it was.
#[derive(Debug, PartialEq, Eq)]
pub struct IngestStep {
    pub action: IngestAction,
    pub skipped: Option<SkipReason>,
}

pub struct IngestStepView {
    pub action: IngestActionView,
    pub skipped: Option<SkipReason>,
}

impl View for IngestStep {
    type V = IngestStepView;

    open spec fn view(&self) -> IngestStepView {
        IngestStepView { action: self.action@, skipped: self.skipped }
    }
}

/// What an ingestion knows: the account, the references collected for it, the
/// phase it is in, the position of the transaction in hand among the
/// references, and the number of records stored so far.
pub struct IngestionView {
    pub id: u128,
    pub address: Seq<char>,
    pub pager: PagerView,
    pub phase: Phase,
    pub position: nat,
    pub written: nat,
}

/// The ingestion of one account's history.
#[derive(Debug)]
pub struct Ingestion {
    id: u128,
    address: String,
    pager: SignaturePager,
    phase: Phase,
    position: usize,
    written: usize,
}

impl View for Ingestion {
    type V = IngestionView;

    closed spec fn view(&self) -> IngestionView {
        IngestionView {
            id: self.id,
            address: self.address@,
            pager: self.pager@,
            phase: self.phase,
            position: self.position as nat,
            written: self.written as nat,
        }
    }
}

/// The ledger's own rendering of the address that a text denotes, where the
/// text denotes one.
pub uninterp spec fn pubkey_text(address: Seq<char>) -> Option<Seq<char>>;

/// Parses `address` with `Pubkey::from_str` of `solana_sdk` and renders the
/// key with `to_string`. Trusted: whether the text parses, and the rendering,
/// are functions of the text alone.
#[verifier::external_body]
pub(crate) fn canonical_address(address: &String) -> (canonical: Option<String>)
    ensures
        match canonical {
            Some(text) => pubkey_text(address@) == Some(text@),
            None => pubkey_text(address@) is None,
        },
{
    Pubkey::from_str(address.as_str()).ok().map(|key| key.to_string())
}

/// The ingestion ends with `outcome`.
pub open spec fn halted(state: IngestionView, outcome: Result<usize, IngestError>) -> (
    IngestionView,
    IngestStepView,
) {
    (
        IngestionView { phase: Phase::Done, ..state },
        IngestStepView { action: IngestActionView::Finish(outcome), skipped: None },
    )
}

/// The ingestion turns to the reference at `position`, with `written` records
/// stored so far: it asks for that transaction, or, behind the last
/// reference, for the account to be marked inspected.
pub open spec fn turn_to(
    state: IngestionView,
    position: nat,
    written: nat,
    skipped: Option<SkipReason>,
) -> (IngestionView, IngestStepView) {
    if position < state.pager.collected.len() {
        (
            IngestionView { phase: Phase::Fetching, position, written, ..state },
            IngestStepView {
                action: IngestActionView::FetchTransaction(state.pager.collected[position as int]),
                skipped,
            },
        )
    } else {
        (
            IngestionView { phase: Phase::Marking, position, written, ..state },
            IngestStepView { action: IngestActionView::MarkInspected(state.id), skipped },
        )
    }
}

/// The ingestion continues its listing with `pager`: it asks for the next
/// page, or, when the listing is complete, turns to the first reference.
pub open spec fn listing_with(state: IngestionView, pager: PagerView) -> (
    IngestionView,
    IngestStepView,
) {
    let listed = IngestionView { pager, ..state };
    match request_after(pager) {
        Some(request) => (
            IngestionView { phase: Phase::Listing, ..listed },
            IngestStepView { action: IngestActionView::ListSignatures(request), skipped: None },
        ),
        None => turn_to(listed, 0, 0, None),
    }
}

/// The state in which an ingestion starts for an account whose address the
/// ledger renders as `canonical`, bounded to `max_length` references, and its
/// first action. An address without rendering is no ledger address: the
/// ingestion ends at once.
pub open spec fn ingest_start(
    token: TokenAddressView,
    canonical: Option<Seq<char>>,
    max_length: usize,
) -> (IngestionView, IngestStepView) {
    let pager = PagerView {
        collected: Seq::empty(),
        max_length: max_length as nat,
        exhausted: false,
    };
    match canonical {
        None => halted(
            IngestionView {
                id: token.id,
                address: token.address,
                pager,
                phase: Phase::Done,
                position: 0,
                written: 0,
            },
            Err(IngestError::InvalidAddress),
        ),
        Some(address) => listing_with(
            IngestionView {
                id: token.id,
                address,
                pager,
                phase: Phase::Listing,
                position: 0,
                written: 0,
            },
            pager,
        ),
    }
}

/// The state that follows `state` when `event` arrives, and the next action.
/// `reading` is the calendar reading of the block time of the transaction
/// that `event` carries, if it carries one.
///
/// - A page of references extends the listing. A failed listing ends the run.
/// - A transaction's detail gives a record to store, or the transaction is
///   passed over and the ingestion turns to the next reference. So it is when
///   the transaction cannot be found or decoded. An endpoint out of reach
///   ends the run.
/// - A stored record counts, and the ingestion turns to the next reference.
///   A refused write ends the run.
/// - Behind the last reference the account is marked inspected, which
///   completes the run with the number of records stored.
/// - An outcome that does not answer the action named last ends the run.
pub open spec fn ingest_step(
    state: IngestionView,
    event: IngestEventView,
    reading: Option<BlockTime>,
) -> (IngestionView, IngestStepView) {
    match (state.phase, event) {
        (Phase::Listing, IngestEventView::Signatures(Ok(page))) => listing_with(
            state,
            pager_after(state.pager, page),
        ),
        (Phase::Listing, IngestEventView::Signatures(Err(error))) => halted(
            state,
            Err(IngestError::Adapter(error)),
        ),
        (Phase::Fetching, IngestEventView::Transaction(Ok(detail))) => match balance_record(
            state.id,
            state.address,
            state.pager.collected[state.position as int],
            detail,
            reading,
        ) {
            Ok(record) => (
                IngestionView { phase: Phase::Writing, ..state },
                IngestStepView { action: IngestActionView::WriteBalance(record), skipped: None },
            ),
            Err(error) => turn_to(
                state,
                state.position + 1,
                state.written,
                Some(SkipReason::Extract(error)),
            ),
        },
        (Phase::Fetching, IngestEventView::Transaction(Err(AdapterError::Transport))) => halted(
            state,
            Err(IngestError::Adapter(AdapterError::Transport)),
        ),
        (Phase::Fetching, IngestEventView::Transaction(Err(error))) => turn_to(
            state,
            state.position + 1,
            state.written,
            Some(SkipReason::Fetch(error)),
        ),
        (Phase::Writing, IngestEventView::Written(true)) => turn_to(
            state,
            state.position + 1,
            state.written + 1,
            None,
        ),
        (Phase::Writing, IngestEventView::Written(false)) => halted(
            state,
            Err(IngestError::Persistence),
        ),
        (Phase::Marking, IngestEventView::Inspected(true)) => halted(
            state,
            Ok(state.written as usize),
        ),
        (Phase::Marking, IngestEventView::Inspected(false)) => halted(
            state,
            Err(IngestError::Persistence),
        ),
        _ => halted(state, Err(IngestError::UnexpectedEvent)),
    }
}

/// What every ingestion keeps to: it holds no reference twice and no more
/// than its bound, its position lies within the references, and it has stored
/// no more records than it has passed references.
pub open spec fn consistent(state: IngestionView) -> bool {
    &&& state.pager.collected.no_duplicates()
    &&& state.pager.collected.len() <= state.pager.max_length
    &&& state.written <= state.position <= state.pager.collected.len()
    &&& state.phase is Fetching || state.phase is Writing ==> state.position
        < state.pager.collected.len()
    &&& state.phase is Listing ==> state.position == 0
}

/// A step takes a consistent ingestion to a consistent one about the same
/// account. Only the listing changes the references, and it hands no record
/// to the store; after it, the ingestion does not return to listing.
pub proof fn lemma_step_keeps_consistent(
    state: IngestionView,
    event: IngestEventView,
    reading: Option<BlockTime>,
)
    requires
        consistent(state),
    ensures
        consistent(ingest_step(state, event, reading).0),
        ingest_step(state, event, reading).0.id == state.id,
        !(state.phase is Listing) ==> ingest_step(state, event, reading).0.pager == state.pager
            && !(ingest_step(state, event, reading).0.phase is Listing),
        state.phase is Listing ==> !(ingest_step(
            state,
            event,
            reading,
        ).1.action is WriteBalance),
{
    if state.phase is Listing {
        if let IngestEventView::Signatures(Ok(page)) = event {
            lemma_stitch_invariants(state.pager.collected, page, state.pager.max_length);
        }
    }
}

/// The calendar reading that a step needs for `event`.
pub open spec fn reading_for(event: IngestEventView) -> Option<BlockTime> {
    match event {
        IngestEventView::Transaction(Ok(detail)) => reading_of(detail.block_time),
        _ => None,
    }
}

impl Ingestion {
    #[verifier::type_invariant]
    spec fn well_formed(self) -> bool {
        &&& self.written <= self.position <= self.pager@.collected.len()
        &&& self.phase is Fetching || self.phase is Writing ==> self.position
            < self.pager@.collected.len()
        &&& self.phase is Listing ==> self.position == 0
    }

    /// The phase the ingestion is in.
    pub fn phase(&self) -> (phase: Phase)
        ensures
            phase == self@.phase,
    {
        self.phase
    }

    /// The number of records stored so far.
    pub fn written(&self) -> (written: usize)
        ensures
            written == self@.written,
            self@.written <= self@.position <= self@.pager.collected.len(),
    {
        proof {
            use_type_invariant(self);
        }
        self.written
    }

    /// The references collected for the account: no reference twice, and no
    /// more of them than the bound.
    pub fn signatures(&self) -> (collected: &Vec<String>)
        ensures
            collected.deep_view() == self@.pager.collected,
            self@.pager.collected.no_duplicates(),
            self@.pager.collected.len() <= self@.pager.max_length,
    {
        self.pager.signatures()
    }
}

/// Ends an ingestion with `outcome`.
fn halt(
    id: u128,
    address: String,
    pager: SignaturePager,
    position: usize,
    written: usize,
    outcome: Result<usize, IngestError>,
) -> (next: (Ingestion, IngestStep))
    requires
        written <= position <= pager@.collected.len(),
    ensures
        (next.0@, next.1@) == halted(
            IngestionView {
                id,
                address: address@,
                pager: pager@,
                phase: Phase::Done,
                position: position as nat,
                written: written as nat,
            },
            outcome,
        ),
{
    (
        Ingestion { id, address, pager, phase: Phase::Done, position, written },
        IngestStep { action: IngestAction::Finish(outcome), skipped: None },
    )
}

/// Turns an ingestion to the reference at `position`.
fn turn(
    id: u128,
    address: String,
    pager: SignaturePager,
    position: usize,
    written: usize,
    skipped: Option<SkipReason>,
) -> (next: (Ingestion, IngestStep))
    requires
        written <= position <= pager@.collected.len(),
    ensures
        (next.0@, next.1@) == turn_to(
            IngestionView {
                id,
                address: address@,
                pager: pager@,
                phase: Phase::Done,
                position: 0,
                written: 0,
            },
            position as nat,
            written as nat,
            skipped,
        ),
{
    let collected = pager.signatures();
    if position < collected.len() {
        let signature = collected[position].clone();
        (
            Ingestion { id, address, pager, phase: Phase::Fetching, position, written },
            IngestStep { action: IngestAction::FetchTransaction(signature), skipped },
        )
    } else {
        (
            Ingestion { id, address, pager, phase: Phase::Marking, position, written },
            IngestStep { action: IngestAction::MarkInspected(id), skipped },
        )
    }
}

/// Continues the listing of an ingestion with `pager` and the request that
/// the pager named.
fn list_with(
    id: u128,
    address: String,
    pager: SignaturePager,
    request: Option<SignatureRequest>,
) -> (next: (Ingestion, IngestStep))
    requires
        request.is_some() == request_after(pager@).is_some(),
        request matches Some(r) ==> Some(r@) == request_after(pager@),
    ensures
        (next.0@, next.1@) == listing_with(
            IngestionView {
                id,
                address: address@,
                pager: pager@,
                phase: Phase::Listing,
                position: 0,
                written: 0,
            },
            pager@,
        ),
{
    match request {
        Some(request) => (
            Ingestion { id, address, pager, phase: Phase::Listing, position: 0, written: 0 },
            IngestStep { action: IngestAction::ListSignatures(request), skipped: None },
        ),
        None => turn(id, address, pager, 0, 0, None),
    }
}

/// Starts the ingestion of `token`, whose address the ledger renders as
/// `canonical`, bounded to `max_length` references.
pub fn start_ingestion(
    token: &TokenAddress,
    canonical: Option<String>,
    max_length: usize,
) -> (next: (Ingestion, IngestStep))
    ensures
        (next.0@, next.1@) == ingest_start(
            token@,
            match canonical {
                Some(text) => Some(text@),
                None => None,
            },
            max_length,
        ),
        consistent(next.0@),
{
    let pager = SignaturePager::new(max_length);
    match canonical {
        None => halt(
            token.id,
            token.address.clone(),
            pager,
            0,
            0,
            Err(IngestError::InvalidAddress),
        ),
        Some(address) => {
            let request = pager.next_request();
            list_with(token.id, address, pager, request)
        },
    }
}

/// Starts the ingestion of `token` with the default bound on the number of
/// references. The first action asks the ledger for the account's most recent
/// references; a token whose address is no ledger address ends the ingestion
/// at once with `IngestError::InvalidAddress`.
pub fn init_chain_with_token(token: &TokenAddress) -> (next: (Ingestion, IngestStep))
    ensures
        (next.0@, next.1@) == ingest_start(
            token@,
            pubkey_text(token@.address),
            DEFAULT_MAX_SIGNATURES,
        ),
        consistent(next.0@),
{
    let canonical = canonical_address(&token.address);
    start_ingestion(token, canonical, DEFAULT_MAX_SIGNATURES)
}

/// Takes an ingestion one step further: `event` is the outcome of the action
/// named last, `reading` the calendar reading of the block time of the
/// transaction that the event carries, if any.
pub fn step_ingestion(
    ingestion: Ingestion,
    event: IngestEvent,
    reading: Option<BlockTime>,
) -> (next: (Ingestion, IngestStep))
    ensures
        (next.0@, next.1@) == ingest_step(ingestion@, event@, reading),
        consistent(ingestion@),
        consistent(next.0@),
{
    proof {
        use_type_invariant(&ingestion);
    }
    let ghost state = ingestion@;
    let Ingestion { id, address, pager, phase, position, written } = ingestion;
    let count = pager.signatures().len();
    assert(count == state.pager.collected.len());
    proof {
        lemma_step_keeps_consistent(state, event@, reading);
    }
    match phase {
        Phase::Listing => match event {
            IngestEvent::Signatures(Ok(page)) => {
                let (pager, request) = get_signatures_for_address(pager, &page);
                list_with(id, address, pager, request)
            },
            IngestEvent::Signatures(Err(error)) => halt(
                id,
                address,
                pager,
                position,
                written,
                Err(IngestError::Adapter(error)),
            ),
            _ => halt(id, address, pager, position, written, Err(IngestError::UnexpectedEvent)),
        },
        Phase::Fetching => match event {
            IngestEvent::Transaction(Ok(detail)) => {
                let record = balance_params_at(
                    id,
                    &address,
                    &pager.signatures()[position],
                    &detail,
                    reading,
                );
                match record {
                    Ok(params) => (
                        Ingestion { id, address, pager, phase: Phase::Writing, position, written },
                        IngestStep { action: IngestAction::WriteBalance(params), skipped: None },
                    ),
                    Err(error) => turn(
                        id,
                        address,
                        pager,
                        position + 1,
                        written,
                        Some(SkipReason::Extract(error)),
                    ),
                }
            },
            IngestEvent::Transaction(Err(AdapterError::Transport)) => halt(
                id,
                address,
                pager,
                position,
                written,
                Err(IngestError::Adapter(AdapterError::Transport)),
            ),
            IngestEvent::Transaction(Err(error)) => turn(
                id,
                address,
                pager,
                position + 1,
                written,
                Some(SkipReason::Fetch(error)),
            ),
            _ => halt(id, address, pager, position, written, Err(IngestError::UnexpectedEvent)),
        },
        Phase::Writing => match event {
            IngestEvent::Written(true) => turn(id, address, pager, position + 1, written + 1, None),
            IngestEvent::Written(false) => halt(
                id,
                address,
                pager,
                position,
                written,
                Err(IngestError::Persistence),
            ),
            _ => halt(id, address, pager, position, written, Err(IngestError::UnexpectedEvent)),
        },
        Phase::Marking => match event {
            IngestEvent::Inspected(true) => halt(
                id,
                address,
                pager,
                position,
                written,
                Ok(written),
            ),
            IngestEvent::Inspected(false) => halt(
                id,
                address,
                pager,
                position,
                written,
                Err(IngestError::Persistence),
            ),
            _ => halt(id, address, pager, position, written, Err(IngestError::UnexpectedEvent)),
        },
        Phase::Done => halt(
            id,
            address,
            pager,
            position,
            written,
            Err(IngestError::UnexpectedEvent),
        ),
    }
}

/// Takes the ingestion of an account one step further.
///
/// `event` is the outcome of the action that the ingestion named last. The
/// result is the ingestion's next state and its next action. A transaction
/// from which no record can be derived is passed over and does not end the
/// run; the step then says why.
pub fn parse_transactions_by_token(ingestion: Ingestion, event: IngestEvent) -> (next: (
    Ingestion,
    IngestStep,
))
    ensures
        (next.0@, next.1@) == ingest_step(ingestion@, event@, reading_for(event@)),
        consistent(ingestion@),
        consistent(next.0@),
{
    let reading = match &event {
        IngestEvent::Transaction(Ok(detail)) => match detail.block_time {
            Some(seconds) => calendar_from_epoch(seconds),
            None => None,
        },
        _ => None,
    };
    step_ingestion(ingestion, event, reading)
}

} // verus!
