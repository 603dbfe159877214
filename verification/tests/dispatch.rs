use indexer::chains::solana::TokenAddress;
use indexer::dispatch::{
    decode_notification, dispatch_notification, event_from_texts, init_module, route, ChainName,
    DecodeError, Dispatch, EventRecord, WalletChangedEvent,
};

const ID: &str = "a1a2a3a4-b1b2-c1c2-d1d2-d3d4d5d6d7d8";
const ID_VALUE: u128 = 0xa1a2a3a4b1b2c1c2d1d2d3d4d5d6d7d8;
const ADDRESS: &str = "So11111111111111111111111111111111111111112";

fn payload(chain: &str) -> String {
    format!(
        "{{\"operation\":\"INSERT\",\"record\":{{\"id\":\"{}\",\"address\":\"{}\",\"chain_name\":\"{}\"}}}}",
        ID, ADDRESS, chain
    )
}

fn event(id: &str, chain: &str) -> WalletChangedEvent {
    WalletChangedEvent {
        operation: "INSERT".to_string(),
        record: EventRecord {
            id: id.to_string(),
            address: ADDRESS.to_string(),
            chain_name: chain.to_string(),
        },
    }
}

#[test]
fn payload_is_decoded_into_its_four_texts() {
    assert_eq!(decode_notification(&payload("Solana")), Ok(event(ID, "Solana")));
}

#[test]
fn payload_with_further_members_is_decoded() {
    let text = format!(
        "{{\"extra\":1,\"record\":{{\"chain_name\":\"Eth\",\"id\":\"{}\",\"more\":[1,2],\"address\":\"{}\"}},\"operation\":\"UPDATE\"}}",
        ID, ADDRESS
    );
    let decoded = decode_notification(&text).unwrap();
    assert_eq!(decoded.operation, "UPDATE");
    assert_eq!(decoded.record, event(ID, "Eth").record);
}

#[test]
fn payload_without_address_is_malformed_and_the_next_one_is_dispatched() {
    let missing = format!(
        "{{\"operation\":\"INSERT\",\"record\":{{\"id\":\"{}\",\"chain_name\":\"Solana\"}}}}",
        ID
    );
    assert_eq!(decode_notification(&missing), Err(DecodeError::MissingAddress));
    assert_eq!(dispatch_notification(&missing), Dispatch::Malformed(DecodeError::MissingAddress));
    assert!(matches!(dispatch_notification(&payload("Solana")), Dispatch::Ingest { .. }));
}

#[test]
fn each_missing_text_has_its_error() {
    let no_operation = format!(
        "{{\"record\":{{\"id\":\"{}\",\"address\":\"{}\",\"chain_name\":\"Solana\"}}}}",
        ID, ADDRESS
    );
    assert_eq!(decode_notification(&no_operation), Err(DecodeError::MissingOperation));
    let no_id = format!(
        "{{\"operation\":\"INSERT\",\"record\":{{\"address\":\"{}\",\"chain_name\":\"Solana\"}}}}",
        ADDRESS
    );
    assert_eq!(decode_notification(&no_id), Err(DecodeError::MissingId));
    let no_chain = format!(
        "{{\"operation\":\"INSERT\",\"record\":{{\"id\":\"{}\",\"address\":\"{}\"}}}}",
        ID, ADDRESS
    );
    assert_eq!(decode_notification(&no_chain), Err(DecodeError::MissingChainName));
    assert_eq!(
        decode_notification("{\"operation\":\"INSERT\"}"),
        Err(DecodeError::MissingId)
    );
}

#[test]
fn member_that_is_no_text_counts_as_missing() {
    let numeric = format!(
        "{{\"operation\":\"INSERT\",\"record\":{{\"id\":\"{}\",\"address\":42,\"chain_name\":\"Solana\"}}}}",
        ID
    );
    assert_eq!(decode_notification(&numeric), Err(DecodeError::MissingAddress));
}

#[test]
fn text_that_is_no_json_is_malformed() {
    for text in ["", "not json", "{\"operation\":", "[]", "null", "42"] {
        assert_eq!(decode_notification(text), Err(DecodeError::MissingOperation));
        assert_eq!(
            dispatch_notification(text),
            Dispatch::Malformed(DecodeError::MissingOperation)
        );
    }
}

#[test]
fn first_missing_text_decides_the_error() {
    let text = |s: &str| Some(s.to_string());
    assert_eq!(event_from_texts(None, None, None, None), Err(DecodeError::MissingOperation));
    assert_eq!(event_from_texts(text("o"), None, None, None), Err(DecodeError::MissingId));
    assert_eq!(
        event_from_texts(text("o"), text("i"), None, None),
        Err(DecodeError::MissingAddress)
    );
    assert_eq!(
        event_from_texts(text("o"), text("i"), text("a"), None),
        Err(DecodeError::MissingChainName)
    );
    assert_eq!(
        event_from_texts(None, text("i"), text("a"), text("c")),
        Err(DecodeError::MissingOperation)
    );
    assert_eq!(
        event_from_texts(text("o"), text("i"), text("a"), text("c")),
        Ok(WalletChangedEvent {
            operation: "o".to_string(),
            record: EventRecord {
                id: "i".to_string(),
                address: "a".to_string(),
                chain_name: "c".to_string()
            }
        })
    );
}

#[test]
fn solana_notification_is_ingested_with_the_value_of_its_id() {
    assert_eq!(
        dispatch_notification(&payload("Solana")),
        Dispatch::Ingest {
            chain: ChainName::Solana,
            token: TokenAddress { id: ID_VALUE, address: ADDRESS.to_string() }
        }
    );
    assert_eq!(
        init_module(event(ID, "Solana")),
        Dispatch::Ingest {
            chain: ChainName::Solana,
            token: TokenAddress { id: ID_VALUE, address: ADDRESS.to_string() }
        }
    );
}

#[test]
fn id_may_be_written_without_hyphens() {
    assert_eq!(
        init_module(event("a1a2a3a4b1b2c1c2d1d2d3d4d5d6d7d8", "Solana")),
        Dispatch::Ingest {
            chain: ChainName::Solana,
            token: TokenAddress { id: ID_VALUE, address: ADDRESS.to_string() }
        }
    );
}

#[test]
fn chains_without_adapter_are_passed_over() {
    for chain in ["Eth", "Egld"] {
        assert_eq!(
            dispatch_notification(&payload(chain)),
            Dispatch::Unsupported { chain_name: chain.to_string() }
        );
    }
}

#[test]
fn unknown_chain_names_are_passed_over_not_malformed() {
    for chain in ["Bitcoin", "solana", "SOLANA", "", "Solana "] {
        assert_eq!(
            dispatch_notification(&payload(chain)),
            Dispatch::Unsupported { chain_name: chain.to_string() }
        );
    }
}

#[test]
fn id_that_is_no_uuid_is_malformed() {
    for id in ["", "42", "a1a2a3a4-b1b2-c1c2-d1d2-d3d4d5d6d7", "g1a2a3a4-b1b2-c1c2-d1d2-d3d4d5d6d7d8"] {
        assert_eq!(init_module(event(id, "Solana")), Dispatch::Malformed(DecodeError::InvalidId));
        assert_eq!(init_module(event(id, "Eth")), Dispatch::Malformed(DecodeError::InvalidId));
    }
}

#[test]
fn route_goes_by_the_id_value_it_is_given() {
    assert_eq!(
        route(event("whatever", "Solana"), Some(5)),
        Dispatch::Ingest {
            chain: ChainName::Solana,
            token: TokenAddress { id: 5, address: ADDRESS.to_string() }
        }
    );
    assert_eq!(route(event(ID, "Solana"), None), Dispatch::Malformed(DecodeError::InvalidId));
    assert_eq!(
        route(event(ID, "Egld"), Some(5)),
        Dispatch::Unsupported { chain_name: "Egld".to_string() }
    );
}

#[test]
fn chain_names_are_parsed_exactly() {
    assert_eq!(ChainName::parse(&"Solana".to_string()), Some(ChainName::Solana));
    assert_eq!(ChainName::parse(&"Eth".to_string()), Some(ChainName::Eth));
    assert_eq!(ChainName::parse(&"Egld".to_string()), Some(ChainName::Egld));
    assert_eq!(ChainName::parse(&"eth".to_string()), None);
    assert_eq!(ChainName::parse(&"".to_string()), None);
}

#[test]
fn only_solana_has_an_adapter() {
    assert!(ChainName::Solana.is_supported());
    assert!(!ChainName::Eth.is_supported());
    assert!(!ChainName::Egld.is_supported());
}
