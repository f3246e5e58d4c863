//! Reading the provider's reply to a storage proof request.

use crate::error::{ClientError, ClientErrorView, GET_PROOF_ENDPOINT, TEST_ENDPOINT};
use ethers_core::types::EIP1186ProofResponse;
use vstd::prelude::*;

verus! {

/// A parsed JSON document of `serde_json`. Nothing of its contents is visible
/// to the proofs.
#[verifier::external_type_specification]
#[verifier::external_body]
pub struct ExJsonValue(serde_json::Value);

/// The error of `serde_json`. Only its message is ever read.
#[verifier::external_type_specification]
#[verifier::external_body]
pub struct ExJsonError(serde_json::Error);

/// The account and storage proof of `ethers_core`, carried through unread.
#[verifier::external_type_specification]
#[verifier::external_body]
pub struct ExProofResponse(EIP1186ProofResponse);

/// What came back from the provider once the transport succeeded.
#[derive(Debug)]
pub struct HttpReply {
    pub status: u16,
    pub body: Vec<u8>,
}

/// What decoding found in a reply body.
#[derive(Debug)]
pub enum Envelope {
    /// The body is not a JSON document.
    Malformed { cause: String },
    /// The document has no `result` member.
    WithoutResult,
    /// The `result` member is not a proof.
    Unfit { cause: String },
    /// The proof held by the `result` member.
    Proof(EIP1186ProofResponse),
}

/// The decimal digit that stands for `value`, for `value` below ten.
pub open spec fn digit(value: nat) -> char {
    if value == 0 {
        '0'
    } else if value == 1 {
        '1'
    } else if value == 2 {
        '2'
    } else if value == 3 {
        '3'
    } else if value == 4 {
        '4'
    } else if value == 5 {
        '5'
    } else if value == 6 {
        '6'
    } else if value == 7 {
        '7'
    } else if value == 8 {
        '8'
    } else {
        '9'
    }
}

/// The decimal numeral of `value`, without leading zeros.
pub open spec fn decimal(value: nat) -> Seq<char>
    decreases value,
{
    if value < 10 {
        seq![digit(value)]
    } else {
        decimal(value / 10).push(digit(value % 10))
    }
}

/// A status counts as success when it lies in the 2xx range.
pub open spec fn successful(status: u16) -> bool {
    200 <= status < 300
}

/// The message reported for a status outside the 2xx range.
pub open spec fn status_failure_text(status: u16) -> Seq<char> {
    "Request not successful, got HTTP code "@ + decimal(status as nat)
}

/// The message reported for a reply without a `result` member.
pub open spec fn missing_result_text() -> Seq<char> {
    "missing field `result`"@
}

fn digit_text(value: u16) -> (text: &'static str)
    requires
        value < 10,
    ensures
        text@ == seq![digit(value as nat)],
{
    proof {
        reveal_strlit("0");
        reveal_strlit("1");
        reveal_strlit("2");
        reveal_strlit("3");
        reveal_strlit("4");
        reveal_strlit("5");
        reveal_strlit("6");
        reveal_strlit("7");
        reveal_strlit("8");
        reveal_strlit("9");
    }
    let text = if value == 0 {
        "0"
    } else if value == 1 {
        "1"
    } else if value == 2 {
        "2"
    } else if value == 3 {
        "3"
    } else if value == 4 {
        "4"
    } else if value == 5 {
        "5"
    } else if value == 6 {
        "6"
    } else if value == 7 {
        "7"
    } else if value == 8 {
        "8"
    } else {
        "9"
    };
    assert(text@ =~= seq![digit(value as nat)]);
    text
}

fn append_decimal(out: &mut String, value: u16)
    ensures
        final(out)@ == old(out)@ + decimal(value as nat),
    decreases value,
{
    if value >= 10 {
        append_decimal(out, value / 10);
    }
    out.append(digit_text(value % 10));
    assert(final(out)@ =~= old(out)@ + decimal(value as nat));
}

/// Tells whether a status lies in the 2xx range.
pub fn is_success(status: u16) -> (success: bool)
    ensures
        success == successful(status),
{
    200 <= status && status < 300
}

/// Writes a status as a decimal numeral.
pub fn status_text(status: u16) -> (text: String)
    ensures
        text@ == decimal(status as nat),
{
    let mut text = String::new();
    append_decimal(&mut text, status);
    text
}

/// The request error for a reply whose status is outside the 2xx range.
pub fn status_failure(status: u16) -> (error: ClientError)
    ensures
        error@ == (ClientErrorView::Request {
            endpoint: GET_PROOF_ENDPOINT@,
            source: status_failure_text(status),
        }),
{
    let mut message = String::from_str("Request not successful, got HTTP code ");
    append_decimal(&mut message, status);
    ClientError::request(GET_PROOF_ENDPOINT, message)
}

/// What `serde_json` makes of a body read as JSON: the document, or the error
/// that tells where the text stops being JSON.
pub uninterp spec fn json_document(body: Seq<u8>) -> Result<serde_json::Value, serde_json::Error>;

/// The member called `name` of a document, if the document is an object that
/// has one.
pub uninterp spec fn json_member_of(document: serde_json::Value, name: Seq<char>) -> Option<
    serde_json::Value,
>;

/// What `serde_json` makes of a document read as a proof: the proof, or the
/// error that tells what the document lacks.
pub uninterp spec fn proof_in_json(document: serde_json::Value) -> Result<
    EIP1186ProofResponse,
    serde_json::Error,
>;

/// The message that a `serde_json::Error` prints.
pub uninterp spec fn json_error_message(error: serde_json::Error) -> Seq<char>;

/// Parses a reply body as JSON: `serde_json::from_slice` at `serde_json::Value`.
/// The contract only gives the outcome its name: it depends on nothing but the
/// bytes handed in.
#[verifier::external_body]
fn parse_json(body: &[u8]) -> (parsed: Result<serde_json::Value, serde_json::Error>)
    ensures
        parsed == json_document(body@),
{
    serde_json::from_slice::<serde_json::Value>(body)
}

/// Copies the member `name` out of a document: `serde_json::Value::get`, which
/// gives nothing unless the document is an object that holds the member. The
/// contract only gives the outcome its name: it depends on nothing but the
/// document and the name handed in.
#[verifier::external_body]
fn json_member(document: &serde_json::Value, name: &str) -> (member: Option<serde_json::Value>)
    ensures
        member == json_member_of(*document, name@),
{
    document.get(name).cloned()
}

/// Reads a document as a proof: `serde_json::from_value` at
/// `EIP1186ProofResponse`. The contract only gives the outcome its name: it
/// depends on nothing but the document handed in.
#[verifier::external_body]
fn proof_from_json(document: serde_json::Value) -> (decoded: Result<
    EIP1186ProofResponse,
    serde_json::Error,
>)
    ensures
        decoded == proof_in_json(document),
{
    serde_json::from_value::<EIP1186ProofResponse>(document)
}

/// The message of a `serde_json::Error`, as its `Display` prints it. The
/// contract only gives the text its name: it depends on nothing but the error
/// handed in.
#[verifier::external_body]
fn json_error_text(error: &serde_json::Error) -> (text: String)
    ensures
        text@ == json_error_message(*error),
{
    error.to_string()
}

/// Mathematical value of an [`Envelope`].
pub ghost enum EnvelopeView {
    Malformed { cause: Seq<char> },
    WithoutResult,
    Unfit { cause: Seq<char> },
    Proof(EIP1186ProofResponse),
}

impl View for Envelope {
    type V = EnvelopeView;

    open spec fn view(&self) -> EnvelopeView {
        match self {
            Envelope::Malformed { cause } => EnvelopeView::Malformed { cause: cause@ },
            Envelope::WithoutResult => EnvelopeView::WithoutResult,
            Envelope::Unfit { cause } => EnvelopeView::Unfit { cause: cause@ },
            Envelope::Proof(proof) => EnvelopeView::Proof(*proof),
        }
    }
}

/// What decoding finds in a reply body. A body that is not JSON is malformed,
/// with the message of the parser. A document without a `result` member is
/// without result. A `result` member that is not a proof is unfit, with the
/// message of the decoder. Otherwise the envelope holds the proof.
pub open spec fn decoding(body: Seq<u8>) -> EnvelopeView {
    match json_document(body) {
        Err(error) => EnvelopeView::Malformed { cause: json_error_message(error) },
        Ok(document) => match json_member_of(document, "result"@) {
            None => EnvelopeView::WithoutResult,
            Some(inner) => match proof_in_json(inner) {
                Err(error) => EnvelopeView::Unfit { cause: json_error_message(error) },
                Ok(proof) => EnvelopeView::Proof(proof),
            },
        },
    }
}

/// Decodes a reply body: the JSON document, then its `result` member, then the
/// proof in it. Stops at the first step that fails.
pub fn read_envelope(body: &[u8]) -> (envelope: Envelope)
    ensures
        envelope@ == decoding(body@),
{
    match parse_json(body) {
        Err(error) => Envelope::Malformed { cause: json_error_text(&error) },
        Ok(document) => match json_member(&document, "result") {
            None => Envelope::WithoutResult,
            Some(inner) => match proof_from_json(inner) {
                Err(error) => Envelope::Unfit { cause: json_error_text(&error) },
                Ok(proof) => Envelope::Proof(proof),
            },
        },
    }
}

/// The outcome that a decoded envelope stands for: its proof, or a request
/// error of the proof endpoint that carries the decoding cause.
pub open spec fn envelope_outcome(envelope: EnvelopeView) -> Result<
    EIP1186ProofResponse,
    ClientErrorView,
> {
    match envelope {
        EnvelopeView::Proof(proof) => Ok(proof),
        EnvelopeView::Malformed { cause } => Err(
            ClientErrorView::Request { endpoint: GET_PROOF_ENDPOINT@, source: cause },
        ),
        EnvelopeView::WithoutResult => Err(
            ClientErrorView::Request {
                endpoint: GET_PROOF_ENDPOINT@,
                source: missing_result_text(),
            },
        ),
        EnvelopeView::Unfit { cause } => Err(
            ClientErrorView::Request { endpoint: GET_PROOF_ENDPOINT@, source: cause },
        ),
    }
}

/// Mathematical value of an outcome of the proof endpoint.
pub open spec fn outcome_view(outcome: Result<EIP1186ProofResponse, ClientError>) -> Result<
    EIP1186ProofResponse,
    ClientErrorView,
> {
    match outcome {
        Ok(proof) => Ok(proof),
        Err(error) => Err(error@),
    }
}

/// Unwraps a decoded envelope: the proof by value, or the request error that
/// carries the decoding cause.
pub fn proof_of_envelope(envelope: Envelope) -> (outcome: Result<
    EIP1186ProofResponse,
    ClientError,
>)
    ensures
        outcome_view(outcome) == envelope_outcome(envelope@),
{
    match envelope {
        Envelope::Proof(proof) => Ok(proof),
        Envelope::Malformed { cause } => Err(ClientError::request(GET_PROOF_ENDPOINT, cause)),
        Envelope::WithoutResult => Err(
            ClientError::request(GET_PROOF_ENDPOINT, String::from_str("missing field `result`")),
        ),
        Envelope::Unfit { cause } => Err(ClientError::request(GET_PROOF_ENDPOINT, cause)),
    }
}

/// The request error for a transport that failed before any reply arrived.
pub fn transport_failure(cause: String) -> (error: ClientError)
    ensures
        error@ == (ClientErrorView::Request { endpoint: GET_PROOF_ENDPOINT@, source: cause@ }),
{
    ClientError::request(GET_PROOF_ENDPOINT, cause)
}

/// Turns the outcome of a reachability probe into the outcome of the check: a
/// provider that could not be reached gives a request error of the check,
/// with the cause of the probe.
pub fn read_reachability(probe: Result<(), String>) -> (outcome: Result<(), ClientError>)
    ensures
        match probe {
            Ok(_) => outcome is Ok,
            Err(cause) => outcome matches Err(error) && error@ == (ClientErrorView::Request {
                endpoint: TEST_ENDPOINT@,
                source: cause@,
            }),
        },
{
    match probe {
        Ok(_) => Ok(()),
        Err(cause) => Err(ClientError::request(TEST_ENDPOINT, cause)),
    }
}

/// The outcome of the proof request that an exchange stands for: the request
/// error of a failed transport, the request error of a status outside the 2xx
/// range, whatever else the reply holds, or else what decoding the body gives.
pub open spec fn response_outcome(exchange: Result<HttpReply, String>) -> Result<
    EIP1186ProofResponse,
    ClientErrorView,
> {
    match exchange {
        Err(cause) => Err(
            ClientErrorView::Request { endpoint: GET_PROOF_ENDPOINT@, source: cause@ },
        ),
        Ok(reply) => if successful(reply.status) {
            envelope_outcome(decoding(reply.body@))
        } else {
            Err(
                ClientErrorView::Request {
                    endpoint: GET_PROOF_ENDPOINT@,
                    source: status_failure_text(reply.status),
                },
            )
        },
    }
}

/// Turns the outcome of the exchange into the outcome of the proof request.
///
/// A transport failure and a status outside the 2xx range each give their
/// request error, whatever else the reply holds. A successful status hands the
/// body to the decoder: the outcome is then the proof in the body, or the
/// request error that carries the decoding cause.
pub fn read_proof_response(exchange: Result<HttpReply, String>) -> (outcome: Result<
    EIP1186ProofResponse,
    ClientError,
>)
    ensures
        outcome_view(outcome) == response_outcome(exchange),
{
    match exchange {
        Err(cause) => Err(transport_failure(cause)),
        Ok(reply) => {
            if !is_success(reply.status) {
                Err(status_failure(reply.status))
            } else {
                proof_of_envelope(read_envelope(reply.body.as_slice()))
            }
        },
    }
}

} // verus!
