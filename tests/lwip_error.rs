use wasm_oss::lwip_error::LwipError;

#[test]
fn test_error_conversion() {
    assert_eq!(LwipError::from_code(-1), LwipError::OutOfMemory);
    assert_eq!(LwipError::OutOfMemory.to_code(), -1);
}

#[test]
fn test_error_display() {
    assert_eq!(LwipError::OutOfMemory.to_string(), "Out of memory error");
}

const ALL: [LwipError; 17] = [
    LwipError::NoError,
    LwipError::OutOfMemory,
    LwipError::Buffer,
    LwipError::Timeout,
    LwipError::Routing,
    LwipError::InProgress,
    LwipError::InvalidValue,
    LwipError::WouldBlock,
    LwipError::AddressInUse,
    LwipError::AlreadyConnecting,
    LwipError::AlreadyConnected,
    LwipError::NotConnected,
    LwipError::NetworkInterface,
    LwipError::ConnectionAborted,
    LwipError::ConnectionReset,
    LwipError::ConnectionClosed,
    LwipError::IllegalArgument,
];

#[test]
fn every_kind_round_trips_through_its_code() {
    for e in ALL.iter() {
        assert_eq!(LwipError::from_code(e.to_code()), *e);
    }
}

#[test]
fn codes_are_zero_and_consecutive_negatives() {
    for (i, e) in ALL.iter().enumerate() {
        assert_eq!(e.to_code(), -(i as i32));
    }
}

#[test]
fn unknown_codes_read_as_invalid_value() {
    assert_eq!(LwipError::from_code(-17), LwipError::InvalidValue);
    assert_eq!(LwipError::from_code(5), LwipError::InvalidValue);
    assert_eq!(LwipError::from_code(i32::MIN), LwipError::InvalidValue);
}

#[test]
fn messages_of_some_kinds() {
    assert_eq!(LwipError::NoError.to_string(), "Ok");
    assert_eq!(LwipError::NetworkInterface.to_string(), "Low-level netif error");
    assert_eq!(LwipError::WouldBlock.to_string(), "Operation would block");
}
