use vstd::prelude::*;

verus! {

#[verifier::external_type_specification]
#[verifier::external_body]
pub struct ExFromUtf8Error(std::string::FromUtf8Error);

/// Failures of the streaming map decoder.
#[derive(Debug)]
pub enum MessagePackError {
    /// A marker byte that the accepted grammar does not allow at that place.
    UnexpectedFormat(String),
    /// A key whose bytes are not UTF-8.
    InvalidString(std::string::FromUtf8Error),
    /// The stream ended inside a map.
    UnexpectedEof,
}

impl MessagePackError {
    /// The message of this error.
    pub fn to_string(&self) -> (r: String)
        ensures
            self is UnexpectedFormat ==> r@ == "Unexpected format: "@ + self->UnexpectedFormat_0@,
            self is InvalidString ==> r@ == "Invalid string"@,
            self is UnexpectedEof ==> r@ == "Unexpected end of stream"@,
    {
        match self {
            MessagePackError::UnexpectedFormat(msg) => {
                let mut r = "Unexpected format: ".to_owned();
                r.append(msg.as_str());
                r
            },
            MessagePackError::InvalidString(_) => "Invalid string".to_owned(),
            MessagePackError::UnexpectedEof => "Unexpected end of stream".to_owned(),
        }
    }
}

} // verus!
