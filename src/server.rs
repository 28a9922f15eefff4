//! The HTTP server's routing and the framing of RPC envelopes in headers.
use vstd::prelude::*;
use crate::text::str_eq;

verus! {

#[verifier::external_type_specification]
#[verifier::external_body]
pub struct ExDecodeError(base64::DecodeError);

/// The bytes that standard base64 text decodes to, if it is valid.
pub uninterp spec fn base64_decoded(s: Seq<char>) -> Option<Seq<u8>>;

/// The standard base64 text of some bytes, padded.
pub uninterp spec fn base64_encoded(b: Seq<u8>) -> Seq<char>;

/// Relies on `Engine::decode` of `base64::engine::general_purpose::STANDARD`: the decoded
/// bytes, or its error for invalid text.
#[verifier::external_body]
fn decode_base64(s: &str) -> (r: Result<Vec<u8>, base64::DecodeError>)
    ensures
        r is Ok <==> base64_decoded(s@) is Some,
        r is Ok ==> r->Ok_0@ == base64_decoded(s@)->Some_0,
{
    base64::Engine::decode(&base64::engine::general_purpose::STANDARD, s)
}

/// Relies on `Engine::encode` of `base64::engine::general_purpose::STANDARD`: the padded
/// text (it panics only when the text's length overflows `usize`).
#[verifier::external_body]
fn encode_base64(b: &[u8]) -> (r: String)
    requires
        b@.len() <= usize::MAX / 2,
    ensures
        r@ == base64_encoded(b@),
{
    base64::Engine::encode(&base64::engine::general_purpose::STANDARD, b)
}

/// Where a request goes.
#[derive(Debug, Clone, Copy, PartialEq, Eq, Structural)]
pub enum Route {
    /// `GET /`: the help page.
    Index,
    /// `POST /api/v1/rpc`: a command envelope.
    Rpc,
    /// Anything else.
    NotFound,
}

pub open spec fn route_of(method: Seq<char>, path: Seq<char>) -> Route {
    if method == "GET"@ && path == "/"@ {
        Route::Index
    } else if method == "POST"@ && path == "/api/v1/rpc"@ {
        Route::Rpc
    } else {
        Route::NotFound
    }
}

/// Routes a request by method and path.
pub fn route(method: &str, path: &str) -> (r: Route)
    ensures
        r == route_of(method@, path@),
{
    if str_eq(method, "GET") && str_eq(path, "/") {
        Route::Index
    } else if str_eq(method, "POST") && str_eq(path, "/api/v1/rpc") {
        Route::Rpc
    } else {
        Route::NotFound
    }
}

/// The help page.
pub fn index_text() -> (r: &'static str) {
    "Welcome to NeoBoot Local HTTP Server\n\nAvailable endpoints:\n- GET /: This help message\n- POST /api/v1/rpc: RPC service endpoint for client requests\n\nServer is running on port 8080\n"
}

/// The port the server listens on.
pub const DEFAULT_PORT: u16 = 8080;

/// Why an RPC request was refused before dispatch.
#[derive(Debug)]
pub enum RpcError {
    /// No `X-Client-Request` header.
    MissingHeader,
    /// The header is not valid base64.
    InvalidBase64(base64::DecodeError),
}

impl RpcError {
    /// The HTTP status of the refusal.
    pub fn status_code(&self) -> (r: u16)
        ensures
            r == 400,
    {
        400
    }

    pub fn to_string(&self) -> (r: String)
        ensures
            self is MissingHeader ==> r@ == "Missing X-Client-Request header"@,
            self is InvalidBase64 ==> r@ == "Invalid base64 encoding"@,
    {
        match self {
            RpcError::MissingHeader => "Missing X-Client-Request header".to_owned(),
            RpcError::InvalidBase64(_) => "Invalid base64 encoding".to_owned(),
        }
    }
}

/// The encoded request envelope carried by the `X-Client-Request` header, if present.
pub fn decode_request_header(header: Option<&str>) -> (r: Result<Vec<u8>, RpcError>)
    ensures
        match header {
            None => r matches Err(RpcError::MissingHeader),
            Some(h) => match base64_decoded(h@) {
                Some(b) => r is Ok && r->Ok_0@ == b,
                None => r matches Err(RpcError::InvalidBase64(_)),
            },
        },
{
    match header {
        None => Err(RpcError::MissingHeader),
        Some(h) => match decode_base64(h) {
            Ok(b) => Ok(b),
            Err(e) => Err(RpcError::InvalidBase64(e)),
        },
    }
}

/// The `X-Client-Request` header value that carries an encoded response envelope.
pub fn encode_response_header(envelope: &Vec<u8>) -> (r: String)
    requires
        envelope@.len() <= usize::MAX / 2,
    ensures
        r@ == base64_encoded(envelope@),
{
    encode_base64(envelope.as_slice())
}

} // verus!
