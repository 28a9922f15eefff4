//! The command wire messages: requests and responses with their payloads, nonces and
//! signature blocks.
use vstd::prelude::*;

pub mod client_request;
pub mod client_request_inner;
pub mod client_response;
pub mod client_response_inner;
pub mod server_request;
pub mod server_request_inner;
pub mod server_response;
pub mod server_response_inner;

verus! {

/// Help command request (pattern `help`).
#[derive(Debug, PartialEq, Eq)]
pub struct HelpClientRequest {
}

/// The list of console commands.
#[derive(Debug, PartialEq, Eq)]
pub struct HelpClientResponse {
    pub message: String,
}

/// Print command request (pattern `print <message>`).
#[derive(Debug, PartialEq, Eq)]
pub struct PrintClientRequest {
    pub message: String,
}

/// The message printed.
#[derive(Debug, PartialEq, Eq)]
pub struct PrintClientResponse {
    pub message: String,
}

/// Nonce command request (pattern `nonce`).
#[derive(Debug, PartialEq, Eq)]
pub struct NonceClientRequest {
}

/// A fresh nonce.
#[derive(Debug, PartialEq, Eq)]
pub struct NonceClientResponse {
    pub nonce: String,
}

/// Quit command request (pattern `quit`).
#[derive(Debug, PartialEq, Eq)]
pub struct QuitClientRequest {
}

/// Acknowledges a quit request.
#[derive(Debug, PartialEq, Eq)]
pub struct QuitClientResponse {
}

/// Status command request (pattern `status`).
#[derive(Debug, PartialEq, Eq)]
pub struct StatusClientRequest {
}

/// Acknowledges a status request.
#[derive(Debug, PartialEq, Eq)]
pub struct StatusClientResponse {
}

/// Chain-load request; the image follows as the request body.
#[derive(Debug, PartialEq, Eq)]
pub struct ChainClientRequest {
    pub payload_size: u64,
}

/// Acknowledges a chain-load.
#[derive(Debug, PartialEq, Eq)]
pub struct ChainClientResponse {
}

/// Boot request; the images follow as the request body, framed as a flat map.
#[derive(Debug, PartialEq, Eq)]
pub struct BootClientRequest {
}

/// Acknowledges a boot upload.
#[derive(Debug, PartialEq, Eq)]
pub struct BootClientResponse {
}

/// A handler's refusal.
#[derive(Debug, PartialEq, Eq)]
pub struct ErrorClientResponse {
    pub error: String,
}

/// A client request envelope.
#[derive(Debug, PartialEq, Eq)]
pub struct ClientRequest {
    pub inner: Option<client_request::ClientRequestInner>,
    pub signature_type: Option<client_request::SignatureType>,
}

/// A client response envelope.
#[derive(Debug, PartialEq, Eq)]
pub struct ClientResponse {
    pub inner: Option<client_response::ClientResponseInner>,
    pub signature_type: Option<client_response::SignatureType>,
}

/// Whoami request to a server.
#[derive(Debug, PartialEq, Eq)]
pub struct WhoamiServerRequest {
}

/// A server's identity.
#[derive(Debug, PartialEq, Eq)]
pub struct WhoamiServerResponse {
    pub whoami: String,
}

/// Nonce request to a server.
#[derive(Debug, PartialEq, Eq)]
pub struct NonceServerRequest {
}

/// A server's nonce.
#[derive(Debug, PartialEq, Eq)]
pub struct NonceServerResponse {
    pub nonce: String,
}

/// A server request envelope.
#[derive(Debug, PartialEq, Eq)]
pub struct ServerRequest {
    pub inner: Option<server_request::ServerRequestInner>,
    pub signature_type: Option<server_request::SignatureType>,
}

/// A server response envelope.
#[derive(Debug, PartialEq, Eq)]
pub struct ServerResponse {
    pub inner: Option<server_response::ServerResponseInner>,
    pub signature_type: Option<server_response::SignatureType>,
}

/// A certificate chain.
#[derive(Debug, PartialEq, Eq)]
pub struct X509Chain {
    pub chain: Vec<String>,
    pub certificate_roles: String,
}

/// A signature by a user and a server.
#[derive(Debug, PartialEq, Eq)]
pub struct FullSignature {
    pub payload_sha256: String,
    pub certificate_chain: Option<X509Chain>,
    pub user_signature: String,
    pub server_signature: String,
}

/// A client's signature.
#[derive(Debug, PartialEq, Eq)]
pub struct ClientSignature {
    pub payload_sha256: String,
    pub client_certificate: String,
    pub client_certificate_signature: Option<FullSignature>,
    pub payload_signature: String,
}

/// A server's signature.
#[derive(Debug, PartialEq, Eq)]
pub struct ServerSignature {
    pub payload_sha256: String,
    pub certificate_chain: Option<X509Chain>,
    pub server_signature: String,
}

/// A user's signature.
#[derive(Debug, PartialEq, Eq)]
pub struct UserSignature {
    pub payload_sha256: String,
    pub certificate_chain: Option<X509Chain>,
    pub user_signature: String,
}

} // verus!
