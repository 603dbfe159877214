//! Change notifications: decoding a payload and routing it to the ingestion
//! of the chain it names.

use crate::chains::solana::TokenAddress;
use crate::chains::solana::TokenAddressView;
use std::str::FromStr;
use uuid::Uuid;
use vstd::prelude::*;

verus! {

/// The chains that a notification can name.
#[derive(Debug, Clone, Copy, PartialEq, Eq, Structural)]
pub enum ChainName {
    Solana,
    Eth,
    Egld,
}

/// The record of a change notification: the tracked account it is about.
#[derive(Debug, Clone, PartialEq, Eq)]
pub struct EventRecord {
    pub id: String,
    pub address: String,
    pub chain_name: String,
}

pub struct EventRecordView {
    pub id: Seq<char>,
    pub address: Seq<char>,
    pub chain_name: Seq<char>,
}

impl View for EventRecord {
    type V = EventRecordView;

    open spec fn view(&self) -> EventRecordView {
        EventRecordView { id: self.id@, address: self.address@, chain_name: self.chain_name@ }
    }
}

/// A change notification: an account was added or is to be inspected again.
#[derive(Debug, Clone, PartialEq, Eq)]
pub struct WalletChangedEvent {
    pub operation: String,
    pub record: EventRecord,
}

pub struct WalletChangedEventView {
    pub operation: Seq<char>,
    pub record: EventRecordView,
}

impl View for WalletChangedEvent {
    type V = WalletChangedEventView;

    open spec fn view(&self) -> WalletChangedEventView {
        WalletChangedEventView { operation: self.operation@, record: self.record@ }
    }
}

/// Why a payload is no change notification.
#[derive(Debug, Clone, Copy, PartialEq, Eq, Structural)]
pub enum DecodeError {
    /// The payload is no JSON document with a text at `operation`.
    MissingOperation,
    /// The payload has no text at `record.id`.
    MissingId,
    /// The payload has no text at `record.address`.
    MissingAddress,
    /// The payload has no text at `record.chain_name`.
    MissingChainName,
    /// The text at `record.id` is no UUID.
    InvalidId,
}

/// What to do about one notification. None of these ends the dispatch loop.
#[derive(Debug, Clone, PartialEq, Eq)]
pub enum Dispatch {
    /// Ingest the account's history with the adapter of `chain`.
    Ingest { chain: ChainName, token: TokenAddress },
    /// Pass the notification over: no adapter serves the chain it names.
    Unsupported { chain_name: String },
    /// Pass the notification over: its payload could not be decoded.
    Malformed(DecodeError),
}

pub enum DispatchView {
    Ingest { chain: ChainName, token: TokenAddressView },
    Unsupported { chain_name: Seq<char> },
    Malformed(DecodeError),
}

impl View for Dispatch {
    type V = DispatchView;

    open spec fn view(&self) -> DispatchView {
        match self {
            Dispatch::Ingest { chain, token } => DispatchView::Ingest {
                chain: *chain,
                token: token@,
            },
            Dispatch::Unsupported { chain_name } => DispatchView::Unsupported {
                chain_name: chain_name@,
            },
            Dispatch::Malformed(error) => DispatchView::Malformed(*error),
        }
    }
}

/// The text that the JSON document `payload` holds at the JSON pointer
/// `pointer`: none where the payload is no JSON document, holds nothing
/// there, or holds something other than a text.
pub uninterp spec fn json_text_at(payload: Seq<char>, pointer: Seq<char>) -> Option<Seq<char>>;

/// Parses `payload` with `serde_json::from_str` as a `serde_json::Value`,
/// looks `pointer` up with `Value::pointer` and reads the text there with
/// `Value::as_str`. Trusted: the outcome is a function of the two texts alone.
#[verifier::external_body]
pub(crate) fn text_at(payload: &str, pointer: &str) -> (text: Option<String>)
    ensures
        match text {
            Some(found) => json_text_at(payload@, pointer@) == Some(found@),
            None => json_text_at(payload@, pointer@) is None,
        },
{
    let document: serde_json::Value = serde_json::from_str(payload).ok()?;
    document.pointer(pointer).and_then(|member| member.as_str()).map(|text| text.to_owned())
}

/// The 128-bit value of the UUID that a text denotes, where it denotes one.
pub uninterp spec fn uuid_value(text: Seq<char>) -> Option<u128>;

/// Parses `text` with `Uuid::from_str` and takes the value with
/// `Uuid::as_u128`. Trusted: the outcome is a function of the text alone.
#[verifier::external_body]
pub(crate) fn parse_uuid(text: &String) -> (value: Option<u128>)
    ensures
        value == uuid_value(text@),
{
    Uuid::from_str(text.as_str()).ok().map(|id| id.as_u128())
}

/// The chain that a name denotes.
pub open spec fn chain_of(name: Seq<char>) -> Option<ChainName> {
    if name == "Solana"@ {
        Some(ChainName::Solana)
    } else if name == "Eth"@ {
        Some(ChainName::Eth)
    } else if name == "Egld"@ {
        Some(ChainName::Egld)
    } else {
        None
    }
}

/// Whether an adapter serves the chain.
pub open spec fn is_supported(chain: ChainName) -> bool {
    chain is Solana
}

/// The notification made of the four texts of a payload. The first text that
/// is missing, in the order operation, id, address, chain name, is the error.
pub open spec fn event_of(
    operation: Option<Seq<char>>,
    id: Option<Seq<char>>,
    address: Option<Seq<char>>,
    chain_name: Option<Seq<char>>,
) -> Result<WalletChangedEventView, DecodeError> {
    match (operation, id, address, chain_name) {
        (None, _, _, _) => Err(DecodeError::MissingOperation),
        (Some(_), None, _, _) => Err(DecodeError::MissingId),
        (Some(_), Some(_), None, _) => Err(DecodeError::MissingAddress),
        (Some(_), Some(_), Some(_), None) => Err(DecodeError::MissingChainName),
        (Some(operation), Some(id), Some(address), Some(chain_name)) => Ok(
            WalletChangedEventView {
                operation,
                record: EventRecordView { id, address, chain_name },
            },
        ),
    }
}

/// What to do about the notification `event`, where `id` is the value of the
/// UUID that its record's id denotes.
///
/// An id that is no UUID makes the notification malformed. A chain name that
/// denotes no chain, or a chain that no adapter serves, makes it unsupported.
/// Otherwise the account is to be ingested.
pub open spec fn routed(event: WalletChangedEventView, id: Option<u128>) -> DispatchView {
    match id {
        None => DispatchView::Malformed(DecodeError::InvalidId),
        Some(id) => match chain_of(event.record.chain_name) {
            Some(chain) if is_supported(chain) => DispatchView::Ingest {
                chain,
                token: TokenAddressView { id, address: event.record.address },
            },
            _ => DispatchView::Unsupported { chain_name: event.record.chain_name },
        },
    }
}

/// What to do about the payload of one notification.
pub open spec fn dispatched(payload: Seq<char>) -> DispatchView {
    match event_of(
        json_text_at(payload, "/operation"@),
        json_text_at(payload, "/record/id"@),
        json_text_at(payload, "/record/address"@),
        json_text_at(payload, "/record/chain_name"@),
    ) {
        Err(error) => DispatchView::Malformed(error),
        Ok(event) => routed(event, uuid_value(event.record.id)),
    }
}

/// A payload that lacks one of the four texts is malformed, whatever else it
/// holds, and a payload whose chain name denotes no chain that an adapter
/// serves is never ingested.
pub proof fn law_incomplete_payload_is_malformed(payload: Seq<char>)
    ensures
        json_text_at(payload, "/operation"@) is None || json_text_at(payload, "/record/id"@)
            is None || json_text_at(payload, "/record/address"@) is None || json_text_at(
            payload,
            "/record/chain_name"@,
        ) is None ==> dispatched(payload) is Malformed,
        dispatched(payload) is Ingest ==> json_text_at(payload, "/record/chain_name"@) == Some(
            "Solana"@,
        ),
{
}

/// A decoded notification, or the reason why there is none, as a mathematical value.
pub open spec fn event_view(event: Result<WalletChangedEvent, DecodeError>) -> Result<
    WalletChangedEventView,
    DecodeError,
> {
    match event {
        Ok(event) => Ok(event@),
        Err(error) => Err(error),
    }
}

impl ChainName {
    /// The chain that `name` denotes, if it denotes one.
    pub fn parse(name: &String) -> (chain: Option<ChainName>)
        ensures
            chain == chain_of(name@),
    {
        if *name == "Solana".to_owned() {
            Some(ChainName::Solana)
        } else if *name == "Eth".to_owned() {
            Some(ChainName::Eth)
        } else if *name == "Egld".to_owned() {
            Some(ChainName::Egld)
        } else {
            None
        }
    }

    /// Whether an adapter serves this chain.
    pub fn is_supported(&self) -> (supported: bool)
        ensures
            supported == is_supported(*self),
    {
        match self {
            ChainName::Solana => true,
            _ => false,
        }
    }
}

/// Makes a notification of the four texts read from a payload.
pub fn event_from_texts(
    operation: Option<String>,
    id: Option<String>,
    address: Option<String>,
    chain_name: Option<String>,
) -> (event: Result<WalletChangedEvent, DecodeError>)
    ensures
        event_view(event) == event_of(
            operation.deep_view(),
            id.deep_view(),
            address.deep_view(),
            chain_name.deep_view(),
        ),
{
    let operation = match operation {
        Some(operation) => operation,
        None => {
            return Err(DecodeError::MissingOperation);
        },
    };
    let id = match id {
        Some(id) => id,
        None => {
            return Err(DecodeError::MissingId);
        },
    };
    let address = match address {
        Some(address) => address,
        None => {
            return Err(DecodeError::MissingAddress);
        },
    };
    let chain_name = match chain_name {
        Some(chain_name) => chain_name,
        None => {
            return Err(DecodeError::MissingChainName);
        },
    };
    Ok(WalletChangedEvent { operation, record: EventRecord { id, address, chain_name } })
}

/// Decodes the payload of a notification: a JSON document with a text at
/// `operation` and, under `record`, texts at `id`, `address` and `chain_name`.
pub fn decode_notification(payload: &str) -> (event: Result<WalletChangedEvent, DecodeError>)
    ensures
        event_view(event) == event_of(
            json_text_at(payload@, "/operation"@),
            json_text_at(payload@, "/record/id"@),
            json_text_at(payload@, "/record/address"@),
            json_text_at(payload@, "/record/chain_name"@),
        ),
{
    let operation = text_at(payload, "/operation");
    let id = text_at(payload, "/record/id");
    let address = text_at(payload, "/record/address");
    let chain_name = text_at(payload, "/record/chain_name");
    event_from_texts(operation, id, address, chain_name)
}

/// Routes a decoded notification, given the value of its record's id.
pub fn route(event: WalletChangedEvent, id: Option<u128>) -> (dispatch: Dispatch)
    ensures
        dispatch@ == routed(event@, id),
{
    let id = match id {
        Some(id) => id,
        None => {
            return Dispatch::Malformed(DecodeError::InvalidId);
        },
    };
    let WalletChangedEvent { operation: _, record } = event;
    let EventRecord { id: _, address, chain_name } = record;
    match ChainName::parse(&chain_name) {
        Some(chain) => {
            if chain.is_supported() {
                Dispatch::Ingest { chain, token: TokenAddress { id, address } }
            } else {
                Dispatch::Unsupported { chain_name }
            }
        },
        None => Dispatch::Unsupported { chain_name },
    }
}

/// Decides what to do about a decoded notification: ingest the account it
/// names, or pass it over because its id is no UUID or no adapter serves its
/// chain.
pub fn init_module(event: WalletChangedEvent) -> (dispatch: Dispatch)
    ensures
        dispatch@ == routed(event@, uuid_value(event@.record.id)),
{
    let id = parse_uuid(&event.record.id);
    route(event, id)
}

/// Decides what to do about the payload of one notification. Whatever the
/// payload holds, the decision is one that lets the dispatch loop go on.
pub fn dispatch_notification(payload: &str) -> (dispatch: Dispatch)
    ensures
        dispatch@ == dispatched(payload@),
{
    match decode_notification(payload) {
        Ok(event) => init_module(event),
        Err(error) => Dispatch::Malformed(error),
    }
}

} // verus!
