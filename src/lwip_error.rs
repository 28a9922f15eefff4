use vstd::prelude::*;

verus! {

/// Status kinds reported by the network stack across the host boundary.
#[derive(Debug, Clone, Copy, PartialEq, Eq, Structural)]
pub enum LwipError {
    /// No error, everything OK
    NoError,
    /// Out of memory error
    OutOfMemory,
    /// Buffer error
    Buffer,
    /// Timeout
    Timeout,
    /// Routing problem
    Routing,
    /// Operation in progress
    InProgress,
    /// Illegal value
    InvalidValue,
    /// Operation would block
    WouldBlock,
    /// Address in use
    AddressInUse,
    /// Already connecting
    AlreadyConnecting,
    /// Connection already established
    AlreadyConnected,
    /// Not connected
    NotConnected,
    /// Low-level network interface error
    NetworkInterface,
    /// Connection aborted
    ConnectionAborted,
    /// Connection reset
    ConnectionReset,
    /// Connection closed
    ConnectionClosed,
    /// Illegal argument
    IllegalArgument,
}

/// The integer status code of an error kind.
pub open spec fn code_of(e: LwipError) -> i32 {
    match e {
        LwipError::NoError => 0,
        LwipError::OutOfMemory => -1i32,
        LwipError::Buffer => -2i32,
        LwipError::Timeout => -3i32,
        LwipError::Routing => -4i32,
        LwipError::InProgress => -5i32,
        LwipError::InvalidValue => -6i32,
        LwipError::WouldBlock => -7i32,
        LwipError::AddressInUse => -8i32,
        LwipError::AlreadyConnecting => -9i32,
        LwipError::AlreadyConnected => -10i32,
        LwipError::NotConnected => -11i32,
        LwipError::NetworkInterface => -12i32,
        LwipError::ConnectionAborted => -13i32,
        LwipError::ConnectionReset => -14i32,
        LwipError::ConnectionClosed => -15i32,
        LwipError::IllegalArgument => -16i32,
    }
}

/// The error kind of an integer status code; unknown codes read as `InvalidValue`.
pub open spec fn error_of(code: i32) -> LwipError {
    if code == 0 {
        LwipError::NoError
    } else if code == -1i32 {
        LwipError::OutOfMemory
    } else if code == -2i32 {
        LwipError::Buffer
    } else if code == -3i32 {
        LwipError::Timeout
    } else if code == -4i32 {
        LwipError::Routing
    } else if code == -5i32 {
        LwipError::InProgress
    } else if code == -6i32 {
        LwipError::InvalidValue
    } else if code == -7i32 {
        LwipError::WouldBlock
    } else if code == -8i32 {
        LwipError::AddressInUse
    } else if code == -9i32 {
        LwipError::AlreadyConnecting
    } else if code == -10i32 {
        LwipError::AlreadyConnected
    } else if code == -11i32 {
        LwipError::NotConnected
    } else if code == -12i32 {
        LwipError::NetworkInterface
    } else if code == -13i32 {
        LwipError::ConnectionAborted
    } else if code == -14i32 {
        LwipError::ConnectionReset
    } else if code == -15i32 {
        LwipError::ConnectionClosed
    } else if code == -16i32 {
        LwipError::IllegalArgument
    } else {
        LwipError::InvalidValue
    }
}

/// The human-readable message of an error kind.
pub open spec fn message_of(e: LwipError) -> Seq<char> {
    match e {
        LwipError::NoError => "Ok"@,
        LwipError::OutOfMemory => "Out of memory error"@,
        LwipError::Buffer => "Buffer error"@,
        LwipError::Timeout => "Timeout"@,
        LwipError::Routing => "Routing problem"@,
        LwipError::InProgress => "Operation in progress"@,
        LwipError::InvalidValue => "Illegal value"@,
        LwipError::WouldBlock => "Operation would block"@,
        LwipError::AddressInUse => "Address in use"@,
        LwipError::AlreadyConnecting => "Already connecting"@,
        LwipError::AlreadyConnected => "Already connected"@,
        LwipError::NotConnected => "Not connected"@,
        LwipError::NetworkInterface => "Low-level netif error"@,
        LwipError::ConnectionAborted => "Connection aborted"@,
        LwipError::ConnectionReset => "Connection reset"@,
        LwipError::ConnectionClosed => "Connection closed"@,
        LwipError::IllegalArgument => "Illegal argument"@,
    }
}

impl LwipError {
    /// Converts a status code into its error kind.
    pub fn from_code(code: i32) -> (r: LwipError)
        ensures
            r == error_of(code),
    {
        match code {
            0 => LwipError::NoError,
            -1 => LwipError::OutOfMemory,
            -2 => LwipError::Buffer,
            -3 => LwipError::Timeout,
            -4 => LwipError::Routing,
            -5 => LwipError::InProgress,
            -6 => LwipError::InvalidValue,
            -7 => LwipError::WouldBlock,
            -8 => LwipError::AddressInUse,
            -9 => LwipError::AlreadyConnecting,
            -10 => LwipError::AlreadyConnected,
            -11 => LwipError::NotConnected,
            -12 => LwipError::NetworkInterface,
            -13 => LwipError::ConnectionAborted,
            -14 => LwipError::ConnectionReset,
            -15 => LwipError::ConnectionClosed,
            -16 => LwipError::IllegalArgument,
            _ => LwipError::InvalidValue,
        }
    }

    /// Converts an error kind into its status code.
    pub fn to_code(&self) -> (r: i32)
        ensures
            r == code_of(*self),
    {
        match self {
            LwipError::NoError => 0,
            LwipError::OutOfMemory => -1,
            LwipError::Buffer => -2,
            LwipError::Timeout => -3,
            LwipError::Routing => -4,
            LwipError::InProgress => -5,
            LwipError::InvalidValue => -6,
            LwipError::WouldBlock => -7,
            LwipError::AddressInUse => -8,
            LwipError::AlreadyConnecting => -9,
            LwipError::AlreadyConnected => -10,
            LwipError::NotConnected => -11,
            LwipError::NetworkInterface => -12,
            LwipError::ConnectionAborted => -13,
            LwipError::ConnectionReset => -14,
            LwipError::ConnectionClosed => -15,
            LwipError::IllegalArgument => -16,
        }
    }

    /// The message of this error kind.
    pub fn to_string(&self) -> (r: String)
        ensures
            r@ == message_of(*self),
    {
        let text: &str = match self {
            LwipError::NoError => "Ok",
            LwipError::OutOfMemory => "Out of memory error",
            LwipError::Buffer => "Buffer error",
            LwipError::Timeout => "Timeout",
            LwipError::Routing => "Routing problem",
            LwipError::InProgress => "Operation in progress",
            LwipError::InvalidValue => "Illegal value",
            LwipError::WouldBlock => "Operation would block",
            LwipError::AddressInUse => "Address in use",
            LwipError::AlreadyConnecting => "Already connecting",
            LwipError::AlreadyConnected => "Already connected",
            LwipError::NotConnected => "Not connected",
            LwipError::NetworkInterface => "Low-level netif error",
            LwipError::ConnectionAborted => "Connection aborted",
            LwipError::ConnectionReset => "Connection reset",
            LwipError::ConnectionClosed => "Connection closed",
            LwipError::IllegalArgument => "Illegal argument",
        };
        text.to_owned()
    }
}

/// Every error kind survives the trip through its status code.
pub proof fn lemma_code_round_trip(e: LwipError)
    ensures
        error_of(code_of(e)) == e,
{
}

/// Distinct error kinds have distinct status codes.
pub proof fn lemma_code_injective(a: LwipError, b: LwipError)
    ensures
        code_of(a) == code_of(b) ==> a == b,
{
    lemma_code_round_trip(a);
    lemma_code_round_trip(b);
}

} // verus!
