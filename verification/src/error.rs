//! Failures of the storage proof client.

use vstd::prelude::*;

verus! {

/// Logical name of the storage proof endpoint, as carried by request errors.
pub const GET_PROOF_ENDPOINT: &'static str = "eth_getProof";

/// Logical name of the reachability check, as carried by request errors.
pub const TEST_ENDPOINT: &'static str = "test_endpoint";

/// A failed exchange with the provider.
///
/// Transport failures, refused statuses and undecodable replies all end in
/// `Request`: the endpoint names the operation, the source holds the message of
/// the underlying cause.
#[derive(Debug)]
pub enum ClientError {
    Request { endpoint: String, source: String },
}

/// Mathematical value of a [`ClientError`].
pub ghost enum ClientErrorView {
    Request { endpoint: Seq<char>, source: Seq<char> },
}

impl View for ClientError {
    type V = ClientErrorView;

    open spec fn view(&self) -> ClientErrorView {
        match self {
            ClientError::Request { endpoint, source } => ClientErrorView::Request {
                endpoint: endpoint@,
                source: source@,
            },
        }
    }
}

impl ClientError {
    /// Builds the request error of `endpoint` with the message of its cause.
    pub fn request(endpoint: &str, source: String) -> (error: ClientError)
        ensures
            error@ == (ClientErrorView::Request { endpoint: endpoint@, source: source@ }),
    {
        ClientError::Request { endpoint: String::from_str(endpoint), source }
    }

    /// The logical endpoint that the failed request addressed.
    pub fn endpoint(&self) -> (name: &String)
        ensures
            self@ == (ClientErrorView::Request { endpoint: name@, source: self@->source }),
    {
        match self {
            ClientError::Request { endpoint, .. } => endpoint,
        }
    }

    /// The message of the underlying cause.
    pub fn source(&self) -> (cause: &String)
        ensures
            self@ == (ClientErrorView::Request { endpoint: self@->endpoint, source: cause@ }),
    {
        match self {
            ClientError::Request { source, .. } => source,
        }
    }
}

} // verus!
