use ethers_core::types::{Address, Bytes, EIP1186ProofResponse, StorageProof, H256, U256, U64};
use light_client::error::{ClientError, GET_PROOF_ENDPOINT, TEST_ENDPOINT};
use light_client::request::{assemble_request, proof_request_body, JSON_CONTENT_TYPE};
use light_client::response::{
    is_success, proof_of_envelope, read_envelope, read_proof_response, read_reachability,
    status_failure, status_text, transport_failure, Envelope, HttpReply,
};

const PROOF_JSON: &str = "{\"address\":\"0x7f0d15c7faae65896648c8273b6d7e43f58fa842\",\
\"balance\":\"0x10\",\
\"codeHash\":\"0xc5d2460186f7233c927e7db2dcc703c0e500b653ca82273b7bfad8045d85a470\",\
\"nonce\":\"0x2\",\
\"storageHash\":\"0x56e81f171bcc55a6ff8345e692c0f86e5b48e01b996cadc001622fb5e363b421\",\
\"accountProof\":[\"0xf90211a0\",\"0x80\"],\
\"storageProof\":[{\"key\":\"0x3\",\"value\":\"0x1\",\"proof\":[\"0x01\",\"0x0203\"]}]}";

fn expected_proof() -> EIP1186ProofResponse {
    EIP1186ProofResponse {
        address: "0x7f0d15c7faae65896648c8273b6d7e43f58fa842".parse::<Address>().unwrap(),
        balance: U256::from(16u64),
        code_hash: "0xc5d2460186f7233c927e7db2dcc703c0e500b653ca82273b7bfad8045d85a470"
            .parse::<H256>()
            .unwrap(),
        nonce: U64::from(2u64),
        storage_hash: "0x56e81f171bcc55a6ff8345e692c0f86e5b48e01b996cadc001622fb5e363b421"
            .parse::<H256>()
            .unwrap(),
        account_proof: vec![Bytes::from(vec![0xf9, 0x02, 0x11, 0xa0]), Bytes::from(vec![0x80])],
        storage_proof: vec![StorageProof {
            key: U256::from(3u64),
            proof: vec![Bytes::from(vec![0x01]), Bytes::from(vec![0x02, 0x03])],
            value: U256::from(1u64),
        }],
    }
}

fn reply(status: u16, body: &str) -> Result<HttpReply, String> {
    Ok(HttpReply { status, body: body.as_bytes().to_vec() })
}

fn request_error(outcome: Result<EIP1186ProofResponse, ClientError>) -> (String, String) {
    match outcome {
        Err(ClientError::Request { endpoint, source }) => (endpoint, source),
        Ok(proof) => panic!("unexpected {:?}", proof),
    }
}

#[test]
fn names_of_the_endpoint_and_the_content_type() {
    assert_eq!(GET_PROOF_ENDPOINT, "eth_getProof");
    assert_eq!(JSON_CONTENT_TYPE, "application/json");
}

#[test]
fn request_body_for_two_keys() {
    let keys = vec!["0x1".to_string(), "0x2".to_string()];
    let body = proof_request_body("0xabc", &keys, "0xdef");
    assert_eq!(
        body,
        "{\"jsonrpc\":\"2.0\",\"method\":\"eth_getProof\",\"id\":1,\
\"params\":[\"0xabc\",[\"0x1\",\"0x2\"],\"0xdef\"]}"
    );
}

#[test]
fn request_body_without_keys() {
    let body = proof_request_body("0xabc", &[], "latest");
    assert_eq!(
        body,
        "{\"jsonrpc\":\"2.0\",\"method\":\"eth_getProof\",\"id\":1,\
\"params\":[\"0xabc\",[],\"latest\"]}"
    );
}

#[test]
fn request_body_for_one_key() {
    let body = proof_request_body("a", &["k".to_string()], "b");
    assert_eq!(
        body,
        "{\"jsonrpc\":\"2.0\",\"method\":\"eth_getProof\",\"id\":1,\
\"params\":[\"a\",[\"k\"],\"b\"]}"
    );
}

#[test]
fn request_body_escapes_reserved_characters() {
    let body = proof_request_body("a\"b", &["c\\d".to_string(), "e\nf".to_string()], "\u{1}");
    assert_eq!(
        body,
        "{\"jsonrpc\":\"2.0\",\"method\":\"eth_getProof\",\"id\":1,\
\"params\":[\"a\\\"b\",[\"c\\\\d\",\"e\\nf\"],\"\\u0001\"]}"
    );
}

#[test]
fn request_body_is_the_json_it_describes() {
    let keys = vec!["0x1".to_string(), "ke\"y".to_string(), String::new()];
    let body = proof_request_body("0x7f0d", &keys, "0xblock");
    let document: serde_json::Value = serde_json::from_str(&body).unwrap();
    assert_eq!(document["jsonrpc"], serde_json::Value::String("2.0".to_string()));
    assert_eq!(document["method"], serde_json::Value::String("eth_getProof".to_string()));
    assert_eq!(document["id"], serde_json::Value::from(1u64));
    let params = document["params"].as_array().unwrap();
    assert_eq!(params.len(), 3);
    assert_eq!(params[0].as_str(), Some("0x7f0d"));
    let sent: Vec<&str> =
        params[1].as_array().unwrap().iter().map(|key| key.as_str().unwrap()).collect();
    assert_eq!(sent, vec!["0x1", "ke\"y", ""]);
    assert_eq!(params[2].as_str(), Some("0xblock"));
}

#[test]
fn assembled_request_takes_its_parameters_as_they_are() {
    let keys = vec!["1".to_string(), "[2]".to_string(), "null".to_string()];
    let body = assemble_request("true", &keys, "{}");
    assert_eq!(
        body,
        "{\"jsonrpc\":\"2.0\",\"method\":\"eth_getProof\",\"id\":1,\
\"params\":[true,[1,[2],null],{}]}"
    );
}

#[test]
fn statuses_that_count_as_success() {
    assert!(!is_success(0));
    assert!(!is_success(199));
    assert!(is_success(200));
    assert!(is_success(204));
    assert!(is_success(299));
    assert!(!is_success(300));
    assert!(!is_success(404));
    assert!(!is_success(500));
    assert!(!is_success(u16::MAX));
}

#[test]
fn status_as_decimal_text() {
    assert_eq!(status_text(0), "0");
    assert_eq!(status_text(7), "7");
    assert_eq!(status_text(10), "10");
    assert_eq!(status_text(404), "404");
    assert_eq!(status_text(500), "500");
    assert_eq!(status_text(1000), "1000");
    assert_eq!(status_text(65_535), "65535");
}

#[test]
fn refused_status_gives_a_request_error() {
    let (endpoint, source) = request_error(read_proof_response(reply(500, "ignored")));
    assert_eq!(endpoint, "eth_getProof");
    assert_eq!(source, "Request not successful, got HTTP code 500");
    assert!(source.contains("500"));
}

#[test]
fn refused_status_hides_a_good_body() {
    let body = format!("{{\"result\":{}}}", PROOF_JSON);
    let (_, source) = request_error(read_proof_response(reply(404, &body)));
    assert_eq!(source, "Request not successful, got HTTP code 404");
    let (_, source) = request_error(read_proof_response(reply(199, &body)));
    assert_eq!(source, "Request not successful, got HTTP code 199");
    let (_, source) = request_error(read_proof_response(reply(300, &body)));
    assert_eq!(source, "Request not successful, got HTTP code 300");
}

#[test]
fn status_failure_names_the_endpoint() {
    let error = status_failure(503);
    assert_eq!(error.endpoint(), "eth_getProof");
    assert_eq!(error.source(), "Request not successful, got HTTP code 503");
}

#[test]
fn transport_failure_keeps_its_cause() {
    let (endpoint, source) =
        request_error(read_proof_response(Err("connection refused".to_string())));
    assert_eq!(endpoint, "eth_getProof");
    assert_eq!(source, "connection refused");
    let error = transport_failure("timed out".to_string());
    assert_eq!(error.endpoint(), "eth_getProof");
    assert_eq!(error.source(), "timed out");
}

#[test]
fn successful_reply_gives_the_proof() {
    let body = format!("{{\"jsonrpc\":\"2.0\",\"id\":1,\"result\":{}}}", PROOF_JSON);
    let proof = read_proof_response(reply(200, &body)).unwrap();
    assert_eq!(proof, expected_proof());
    let body = format!("{{\"result\":{}}}", PROOF_JSON);
    let proof = read_proof_response(reply(299, &body)).unwrap();
    assert_eq!(proof, expected_proof());
}

#[test]
fn proof_survives_its_own_encoding() {
    let proof = expected_proof();
    let body = format!("{{\"result\":{}}}", serde_json::to_string(&proof).unwrap());
    assert_eq!(read_proof_response(reply(200, &body)).unwrap(), proof);
}

#[test]
fn body_that_is_not_json() {
    let (endpoint, source) = request_error(read_proof_response(reply(200, "<html>")));
    assert_eq!(endpoint, "eth_getProof");
    assert!(!source.is_empty());
    assert!(matches!(read_envelope(b"<html>"), Envelope::Malformed { .. }));
    assert!(matches!(read_envelope(b""), Envelope::Malformed { .. }));
}

#[test]
fn reply_without_a_result() {
    let body = "{\"jsonrpc\":\"2.0\",\"id\":1,\"error\":{\"code\":-32000,\"message\":\"no\"}}";
    let (endpoint, source) = request_error(read_proof_response(reply(200, body)));
    assert_eq!(endpoint, "eth_getProof");
    assert_eq!(source, "missing field `result`");
    assert!(matches!(read_envelope(body.as_bytes()), Envelope::WithoutResult));
    assert!(matches!(read_envelope(b"[1,2]"), Envelope::WithoutResult));
    assert!(matches!(read_envelope(b"7"), Envelope::WithoutResult));
}

#[test]
fn result_that_is_not_a_proof() {
    let (endpoint, source) = request_error(read_proof_response(reply(200, "{\"result\":5}")));
    assert_eq!(endpoint, "eth_getProof");
    assert!(!source.is_empty());
    assert!(matches!(read_envelope(b"{\"result\":null}"), Envelope::Unfit { .. }));
    let partial = b"{\"result\":{\"address\":\"0x00\"}}";
    assert!(matches!(read_envelope(partial), Envelope::Unfit { .. }));
}

#[test]
fn envelope_with_a_proof() {
    let body = format!("{{\"result\":{}}}", PROOF_JSON);
    match read_envelope(body.as_bytes()) {
        Envelope::Proof(proof) => assert_eq!(proof, expected_proof()),
        other => panic!("unexpected {:?}", other),
    }
}

#[test]
fn outcome_of_each_envelope() {
    assert_eq!(proof_of_envelope(Envelope::Proof(expected_proof())).unwrap(), expected_proof());
    let (endpoint, source) =
        request_error(proof_of_envelope(Envelope::Malformed { cause: "eof".to_string() }));
    assert_eq!((endpoint.as_str(), source.as_str()), ("eth_getProof", "eof"));
    let (endpoint, source) = request_error(proof_of_envelope(Envelope::WithoutResult));
    assert_eq!((endpoint.as_str(), source.as_str()), ("eth_getProof", "missing field `result`"));
    let (endpoint, source) =
        request_error(proof_of_envelope(Envelope::Unfit { cause: "odd".to_string() }));
    assert_eq!((endpoint.as_str(), source.as_str()), ("eth_getProof", "odd"));
}

#[test]
fn request_error_of_any_endpoint() {
    let error = ClientError::request("eth_blockNumber", "down".to_string());
    assert_eq!(error.endpoint(), "eth_blockNumber");
    assert_eq!(error.source(), "down");
}

#[test]
fn reachability_check() {
    assert_eq!(TEST_ENDPOINT, "test_endpoint");
    assert!(read_reachability(Ok(())).is_ok());
    match read_reachability(Err("connection refused".to_string())) {
        Err(ClientError::Request { endpoint, source }) => {
            assert_eq!(endpoint, "test_endpoint");
            assert_eq!(source, "connection refused");
        }
        Ok(()) => panic!("a failed probe passed"),
    }
}
