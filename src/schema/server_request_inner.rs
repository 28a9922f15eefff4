//! The payload kinds of one message family.
use vstd::prelude::*;
use super::NonceServerRequest;
use super::WhoamiServerRequest;

verus! {

/// Exactly one command payload.
#[derive(Debug, PartialEq, Eq)]
pub enum Payload {
    NonceRequest(NonceServerRequest),
    WhoamiRequest(WhoamiServerRequest),
}

} // verus!
