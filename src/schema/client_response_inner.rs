//! The payload kinds of one message family.
use vstd::prelude::*;
use super::HelpClientResponse;
use super::PrintClientResponse;
use super::NonceClientResponse;
use super::QuitClientResponse;
use super::ChainClientResponse;
use super::StatusClientResponse;
use super::BootClientResponse;
use super::ErrorClientResponse;

verus! {

/// Exactly one command payload.
#[derive(Debug, PartialEq, Eq)]
pub enum Payload {
    HelpResponse(HelpClientResponse),
    PrintResponse(PrintClientResponse),
    NonceResponse(NonceClientResponse),
    QuitResponse(QuitClientResponse),
    ChainResponse(ChainClientResponse),
    StatusResponse(StatusClientResponse),
    BootResponse(BootClientResponse),
    ErrorResponse(ErrorClientResponse),
}

} // verus!
