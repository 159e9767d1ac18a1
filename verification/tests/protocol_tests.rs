use absentis::api_call::{ApiCall, ResultShape};
use absentis::block_string::BlockString;
use absentis::errors::{BlockStringError, ProtocolError, TransportError};
use absentis::fetch::{
    block_request, dedup_block_numbers, fan_out, live_lookup_request, transaction_request,
};
use absentis::records::TxHash;
use absentis::request::{batch_json, ParamValue, RequestEnvelope};
use absentis::response::{ResponseEnvelope, ResultUnion};

fn raw(text: &str) -> serde_json::Value {
    serde_json::from_str::<serde_json::Value>(text).expect("test JSON must parse")
}

#[test]
fn it_should_create_json() {
    let test = "{\"id\":2,\"jsonrpc\":\"2.0\",\"method\":\"eth_blockNumber\",\"params\":[]}";
    let json = RequestEnvelope::for_call(ApiCall::EthBlockNumber, Vec::new()).build();
    assert_eq!(test, json);
}

#[test]
fn request_with_params_serializes_in_order() {
    let params = vec![
        ParamValue::Text(String::from("0x4b7")),
        ParamValue::Flag(true),
    ];
    let json = RequestEnvelope::for_call(ApiCall::EthGetBlockByNumber, params).build();
    assert_eq!(
        json,
        "{\"id\":3,\"jsonrpc\":\"2.0\",\"method\":\"eth_getBlockByNumber\",\"params\":[\"0x4b7\",true]}"
    );
}

#[test]
fn request_escapes_awkward_text() {
    let params = vec![ParamValue::Text(String::from("a\"b\\c"))];
    let json = RequestEnvelope::for_call(ApiCall::EthGetBalance, params).build();
    assert_eq!(
        json,
        "{\"id\":5,\"jsonrpc\":\"2.0\",\"method\":\"eth_getBalance\",\"params\":[\"a\\\"b\\\\c\"]}"
    );
}

#[test]
fn batch_wire_text_keeps_submission_order() {
    let reqs = vec![
        RequestEnvelope::for_call(ApiCall::EthBlockNumber, Vec::new()),
        RequestEnvelope::for_call(ApiCall::EthGasPrice, Vec::new()),
    ];
    let json = batch_json(&reqs);
    assert_eq!(
        json,
        "[{\"id\":2,\"jsonrpc\":\"2.0\",\"method\":\"eth_blockNumber\",\"params\":[]},{\"id\":4,\"jsonrpc\":\"2.0\",\"method\":\"eth_gasPrice\",\"params\":[]}]"
    );
    assert_eq!(batch_json(&Vec::new()), "[]");
}

#[test]
fn registry_ids_resolve_back_to_their_call() {
    assert_eq!(ApiCall::from_id(2), Some(ApiCall::EthBlockNumber));
    assert_eq!(ApiCall::from_id(108), Some(ApiCall::TraceTransaction));
    assert_eq!(ApiCall::from_id(1003), Some(ApiCall::NetVersion));
    assert_eq!(ApiCall::from_id(0), None);
    assert_eq!(ApiCall::from_id(999), None);
    assert_eq!(ApiCall::EthBlockNumber.id(), 2);
    assert_eq!(ApiCall::EthBlockNumber.method_info(), "eth_blockNumber");
    assert_eq!(ApiCall::EthBlockNumber.to_str(), "EthBlockNumber");
    assert_eq!(ApiCall::EthBlockNumber.result_shape(), ResultShape::Hex);
    assert_eq!(ApiCall::EthGetBlockByNumber.result_shape(), ResultShape::Block);
    assert_eq!(
        ApiCall::EthGetTransactionByHash.result_shape(),
        ResultShape::Transaction
    );
    // receipt answers are not transaction-shaped; they ride through the
    // dispatcher untyped and are read by the receipt reader instead
    assert_eq!(
        ApiCall::EthGetTransactionByReceipt.result_shape(),
        ResultShape::Unit
    );
}

#[test]
fn receipt_answers_ride_through_the_dispatcher_as_unit() {
    let reqs = vec![RequestEnvelope::for_call(
        ApiCall::EthGetTransactionByReceipt,
        Vec::new(),
    )];
    let raws = vec![raw(
        "{\"transactionHash\":\"0x1111111111111111111111111111111111111111111111111111111111111111\"}",
    )];
    let out = fan_out(&reqs, &raws).expect("lengths match");
    assert!(matches!(out[0].1, Ok(ResultUnion::Unit)));
}

#[test]
fn block_number_response_decodes_as_hex() {
    let r = ResponseEnvelope::from_bytes(b"{\"jsonrpc\":\"2.0\",\"id\":2,\"result\":\"0x4b7\"}")
        .expect("well-formed response");
    assert_eq!(r.call, ApiCall::EthBlockNumber);
    assert!(r.error.is_none());
    match r.result {
        Some(ResultUnion::Hex(h)) => assert_eq!(h.to_bytes(), vec![0x04, 0xb7]),
        _ => panic!("a block-number response must decode as a hex scalar"),
    }
}

#[test]
fn hex_call_never_decodes_an_object() {
    // the id names EthBlockNumber, so an object-shaped result is a type
    // mismatch, never a block
    let r = ResponseEnvelope::from_bytes(
        b"{\"jsonrpc\":\"2.0\",\"id\":2,\"result\":{\"number\":\"0x1\"}}",
    );
    assert_eq!(r.unwrap_err(), ProtocolError::MismatchedTypes);
}

#[test]
fn unknown_id_is_a_typed_error() {
    let r = ResponseEnvelope::from_bytes(b"{\"jsonrpc\":\"2.0\",\"id\":424242,\"result\":\"0x1\"}");
    assert_eq!(r.unwrap_err(), ProtocolError::UnknownCallId);
}

#[test]
fn result_before_known_id_fails_cleanly() {
    let r = ResponseEnvelope::from_bytes(b"{\"jsonrpc\":\"2.0\",\"result\":\"0x1\"}");
    assert_eq!(r.unwrap_err(), ProtocolError::IdNotYetKnown);
}

#[test]
fn server_error_member_decodes_as_error_envelope() {
    let r = ResponseEnvelope::from_bytes(
        b"{\"jsonrpc\":\"2.0\",\"id\":2,\"error\":{\"code\":-32000,\"message\":\"oops\"}}",
    )
    .expect("error envelopes are well-formed responses");
    assert_eq!(r.call, ApiCall::EthBlockNumber);
    assert!(r.is_error());
    assert!(r.result.is_none());
    let e = r.error.expect("error member present");
    assert_eq!(e.code, -32000);
    assert_eq!(e.message, "oops");
}

#[test]
fn result_and_error_are_mutually_exclusive() {
    let both = ResponseEnvelope::from_bytes(
        b"{\"id\":2,\"result\":\"0x1\",\"error\":{\"code\":1,\"message\":\"m\"}}",
    );
    assert_eq!(both.unwrap_err(), ProtocolError::AmbiguousEnvelope);
    let neither = ResponseEnvelope::from_bytes(b"{\"id\":2,\"jsonrpc\":\"2.0\"}");
    assert_eq!(neither.unwrap_err(), ProtocolError::AmbiguousEnvelope);
}

#[test]
fn a_bad_hex_scalar_is_its_own_error() {
    let r = ResponseEnvelope::from_bytes(b"{\"jsonrpc\":\"2.0\",\"id\":2,\"result\":\"0xzz\"}");
    assert_eq!(r.unwrap_err(), ProtocolError::BadHexScalar);
}

#[test]
fn malformed_bytes_never_panic() {
    assert!(matches!(
        ResponseEnvelope::from_bytes(b"not json at all"),
        Err(ProtocolError::Malformed)
    ));
    assert!(matches!(
        ResponseEnvelope::from_bytes(b"[1,2,3]"),
        Err(ProtocolError::Malformed)
    ));
    assert!(matches!(
        ResponseEnvelope::from_bytes(b""),
        Err(ProtocolError::Malformed)
    ));
}

#[test]
fn transaction_response_decodes_the_body() {
    let tx_hash_hex = "0x1111111111111111111111111111111111111111111111111111111111111111";
    let from_hex = "0xfb6916095ca1df60bb79ce92ce3ea74c37c5d359";
    let body = format!(
        "{{\"id\":24,\"jsonrpc\":\"2.0\",\"result\":{{\"hash\":\"{}\",\"blockNumber\":\"0x64\",\"transactionIndex\":\"0x2\",\"from\":\"{}\",\"to\":null,\"input\":\"0xabcd\"}}}}",
        tx_hash_hex, from_hex
    );
    let r = ResponseEnvelope::from_bytes(body.as_bytes()).expect("decodes");
    assert_eq!(r.call, ApiCall::EthGetTransactionByHash);
    match r.result {
        Some(ResultUnion::Transaction(t)) => {
            assert_eq!(t.block_number, 100);
            assert_eq!(t.transaction_index, 2);
            assert!(t.to.is_none());
            assert_eq!(t.input, vec![0xab, 0xcd]);
            assert_eq!(t.hash.bytes, vec![0x11u8; 32]);
        }
        _ => panic!("a transaction call must decode a transaction"),
    }
}

#[test]
fn block_response_decodes_the_header() {
    let author = "0xfb6916095ca1df60bb79ce92ce3ea74c37c5d359";
    let body = format!(
        "{{\"id\":3,\"jsonrpc\":\"2.0\",\"result\":{{\"number\":\"0x64\",\"author\":\"{}\"}}}}",
        author
    );
    let r = ResponseEnvelope::from_bytes(body.as_bytes()).expect("decodes");
    match r.result {
        Some(ResultUnion::Block(b)) => {
            assert_eq!(b.number, 100);
            assert_eq!(absentis::hex::encode(&b.author.bytes), author);
        }
        _ => panic!("a block call must decode a block header"),
    }
}

#[test]
fn fan_out_pairs_answers_with_their_calls() {
    let reqs = vec![
        RequestEnvelope::for_call(ApiCall::EthBlockNumber, Vec::new()),
        RequestEnvelope::for_call(ApiCall::EthGasPrice, Vec::new()),
    ];
    let raws = vec![raw("\"0x10\""), raw("\"0x20\"")];
    let out = fan_out(&reqs, &raws).expect("lengths match");
    assert_eq!(out.len(), 2);
    assert_eq!(out[0].0, ApiCall::EthBlockNumber);
    assert_eq!(out[1].0, ApiCall::EthGasPrice);
    match &out[0].1 {
        Ok(ResultUnion::Hex(h)) => assert_eq!(h.to_bytes(), vec![0x10]),
        _ => panic!("first answer decodes as hex"),
    }
    match &out[1].1 {
        Ok(ResultUnion::Hex(h)) => assert_eq!(h.to_bytes(), vec![0x20]),
        _ => panic!("second answer decodes as hex"),
    }
}

#[test]
fn fan_out_fails_atomically_on_a_short_batch() {
    let reqs = vec![RequestEnvelope::for_call(ApiCall::EthBlockNumber, Vec::new())];
    let raws: Vec<serde_json::Value> = Vec::new();
    assert_eq!(
        fan_out(&reqs, &raws).unwrap_err(),
        TransportError::BatchLengthMismatch
    );
}

#[test]
fn fetch_requests_carry_the_hash_as_hex() {
    let h = TxHash::from_bytes(vec![0x22u8; 32]).unwrap();
    let r = transaction_request(&h);
    assert_eq!(r.call, ApiCall::EthGetTransactionByHash);
    let json = r.build();
    assert!(json.contains("0x2222222222222222222222222222222222222222222222222222222222222222"));
    let b = block_request(1207);
    assert!(b.build().contains("\"params\":[\"0x4b7\",false]"));
    let l = live_lookup_request(100, 2);
    assert!(l.build().contains("\"params\":[\"0x64\",\"0x2\"]"));
}

#[test]
fn block_numbers_are_fetched_once_each() {
    let h = |b: u8| TxHash::from_bytes(vec![b; 32]).unwrap();
    let hashes = vec![(h(1), 5u64), (h(2), 3u64), (h(3), 5u64), (h(4), 4u64)];
    assert_eq!(dedup_block_numbers(&hashes), vec![3, 4, 5]);
    assert_eq!(dedup_block_numbers(&Vec::new()), Vec::<u64>::new());
}

#[test]
fn block_string_converts_case_insensitively() {
    assert_eq!(BlockString::new("latest"), Ok(BlockString::Latest));
    assert_eq!(BlockString::new("LATEST"), Ok(BlockString::Latest));
    assert_eq!(BlockString::new("Earliest"), Ok(BlockString::Earliest));
    assert_eq!(BlockString::new("pending"), Ok(BlockString::Pending));
    assert_eq!(BlockString::new("bogus"), Err(BlockStringError::Convert));
    assert_eq!(BlockString::Latest.to_str(), "latest");
    assert_eq!(BlockString::Earliest.to_str(), "earliest");
    assert_eq!(BlockString::Pending.to_str(), "pending");
}
