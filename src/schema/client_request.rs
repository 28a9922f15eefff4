//! The parts of a `ClientRequest`.
use vstd::prelude::*;
use super::FullSignature;
use super::client_request_inner;

verus! {

/// The signed part: a payload and the nonce that ties request and response.
#[derive(Debug, PartialEq, Eq)]
pub struct ClientRequestInner {
    pub nonce: String,
    pub payload: Option<client_request_inner::Payload>,
}

/// The signature block.
#[derive(Debug, PartialEq, Eq)]
pub enum SignatureType {
    Signature(FullSignature),
}

} // verus!
