//! The parts of a `ServerResponse`.
use vstd::prelude::*;
use super::ClientSignature;
use super::server_response_inner;

verus! {

/// The signed part: a payload and the nonce that ties request and response.
#[derive(Debug, PartialEq, Eq)]
pub struct ServerResponseInner {
    pub nonce: String,
    pub payload: Option<server_response_inner::Payload>,
}

/// The signature block.
#[derive(Debug, PartialEq, Eq)]
pub enum SignatureType {
    Signature(ClientSignature),
}

} // verus!
