//! The parts of a `ServerRequest`.
use vstd::prelude::*;
use super::ClientSignature;
use super::server_request_inner;

verus! {

/// The signed part: a payload and the nonce that ties request and response.
#[derive(Debug, PartialEq, Eq)]
pub struct ServerRequestInner {
    pub nonce: String,
    pub payload: Option<server_request_inner::Payload>,
}

/// The signature block.
#[derive(Debug, PartialEq, Eq)]
pub enum SignatureType {
    Signature(ClientSignature),
}

} // verus!
