//! The payload kinds of one message family.
use vstd::prelude::*;
use super::HelpClientRequest;
use super::PrintClientRequest;
use super::NonceClientRequest;
use super::QuitClientRequest;
use super::ChainClientRequest;
use super::StatusClientRequest;
use super::BootClientRequest;

verus! {

/// Exactly one command payload.
#[derive(Debug, PartialEq, Eq)]
pub enum Payload {
    HelpRequest(HelpClientRequest),
    PrintRequest(PrintClientRequest),
    NonceRequest(NonceClientRequest),
    QuitRequest(QuitClientRequest),
    ChainRequest(ChainClientRequest),
    StatusRequest(StatusClientRequest),
    BootRequest(BootClientRequest),
}

} // verus!
