//! The parts of a `ClientResponse`.
use vstd::prelude::*;
use super::ClientSignature;
use super::client_response_inner;

verus! {

/// The signed part: a payload and the nonce that ties request and response.
#[derive(Debug, PartialEq, Eq)]
pub struct ClientResponseInner {
    pub nonce: String,
    pub payload: Option<client_response_inner::Payload>,
}

/// The signature block.
#[derive(Debug, PartialEq, Eq)]
pub enum SignatureType {
    Signature(ClientSignature),
}

} // verus!
