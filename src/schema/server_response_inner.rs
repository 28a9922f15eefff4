//! The payload kinds of one message family.
use vstd::prelude::*;
use super::NonceServerResponse;
use super::WhoamiServerResponse;

verus! {

/// Exactly one command payload.
#[derive(Debug, PartialEq, Eq)]
pub enum Payload {
    NonceResponse(NonceServerResponse),
    WhoamiResponse(WhoamiServerResponse),
}

} // verus!
