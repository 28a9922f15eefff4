use wasm_oss::boot::{BootController, BootError, PayloadType};
use wasm_oss::lwip_error::LwipError;
use wasm_oss::utils::{parse_int, ParseIntError};

/// Finds the copy target, then records a successful copy there.
fn stage(
    c: &mut BootController,
    t: PayloadType,
    size: u64,
    len: u64,
    env: Option<&str>,
) -> Result<u64, BootError> {
    let at = c.payload_target(t, size, len, env)?;
    c.put_payload_bytes(t, len, 0)?;
    Ok(at)
}

#[test]
fn staging_twice_advances_the_offset() {
    let mut c = BootController::new();
    let a = stage(&mut c, PayloadType::Kernel, 300, 100, Some("0x80000")).unwrap();
    assert_eq!(a, 0x80000);
    let b = stage(&mut c, PayloadType::Kernel, 300, 200, None).unwrap();
    assert_eq!(b, 0x80000 + 100);
    let k = c.get_payload(&PayloadType::Kernel).unwrap();
    assert_eq!(k.offset, 300);
    assert_eq!(k.length, 300);
    assert_eq!(k.address, 0x80000);
}

#[test]
fn boot_without_a_ramdisk_names_it() {
    let mut c = BootController::new();
    stage(&mut c, PayloadType::Kernel, 300, 100, Some("0x80000")).unwrap();
    stage(&mut c, PayloadType::Kernel, 300, 200, None).unwrap();
    let e = c.boot(Some("0x3000")).unwrap_err();
    assert_eq!(e, BootError::NoRamdisk);
    assert!(e.to_string().contains("ramdisk"));
}

#[test]
fn boot_command_carries_the_addresses_and_ramdisk_length() {
    let mut c = BootController::new();
    stage(&mut c, PayloadType::Kernel, 300, 300, Some("0x80000")).unwrap();
    stage(&mut c, PayloadType::Ramdisk, 4, 4, Some("0x1000")).unwrap();
    stage(&mut c, PayloadType::Devicetree, 16, 16, Some("0x2000")).unwrap();
    assert_eq!(c.boot(None).unwrap(), "booti 80000 1000:4 2000");
}

#[test]
fn boot_without_a_kernel_fails_first() {
    let mut c = BootController::new();
    assert_eq!(c.boot(Some("0x2000")), Err(BootError::NoKernel));
    assert_eq!(BootError::NoKernel.to_string(), "No kernel payload set");
}

#[test]
fn devicetree_falls_back_to_the_environment() {
    let mut c = BootController::new();
    stage(&mut c, PayloadType::Kernel, 1, 1, Some("16")).unwrap();
    stage(&mut c, PayloadType::Ramdisk, 255, 1, Some("0o20")).unwrap();
    assert_eq!(c.boot(None), Err(BootError::NoDevicetree));
    assert_eq!(c.boot(Some("nope")), Err(BootError::NoDevicetree));
    assert_eq!(c.boot(Some("0b1010")).unwrap(), "booti 10 10:ff a");
    assert_eq!(c.get_payload(&PayloadType::Devicetree).unwrap().address, 10);
}

#[test]
fn writes_past_the_declared_length_are_refused() {
    let mut c = BootController::new();
    stage(&mut c, PayloadType::Kernel, 10, 8, Some("0x100")).unwrap();
    assert_eq!(
        stage(&mut c, PayloadType::Kernel, 10, 3, None),
        Err(BootError::OutOfBounds)
    );
    assert_eq!(c.get_payload(&PayloadType::Kernel).unwrap().offset, 8);
    assert_eq!(stage(&mut c, PayloadType::Kernel, 10, 2, None), Ok(0x108));
}

#[test]
fn a_missing_or_bad_address_stages_nothing() {
    let mut c = BootController::new();
    assert_eq!(
        stage(&mut c, PayloadType::Ramdisk, 4, 4, None),
        Err(BootError::AddressUnavailable)
    );
    assert_eq!(
        stage(&mut c, PayloadType::Ramdisk, 4, 4, Some("0xzz")),
        Err(BootError::InvalidAddress(ParseIntError::InvalidDigit))
    );
    assert!(c.get_payload(&PayloadType::Ramdisk).is_none());
}

#[test]
fn address_overflow_is_refused() {
    let mut c = BootController::new();
    c.set_payload_address(PayloadType::Kernel, u64::MAX);
    c.remove_payload(&PayloadType::Kernel);
    stage(&mut c, PayloadType::Kernel, 10, 5, Some("18446744073709551615")).unwrap();
    assert_eq!(
        stage(&mut c, PayloadType::Kernel, 10, 5, None),
        Err(BootError::OutOfBounds)
    );
}

#[test]
fn set_and_remove_payload_address() {
    let mut c = BootController::new();
    c.set_payload_address(PayloadType::Devicetree, 0x2000);
    let d = *c.get_payload(&PayloadType::Devicetree).unwrap();
    assert_eq!((d.address, d.offset, d.length), (0x2000, 0, 0));
    c.set_payload_address(PayloadType::Devicetree, 0x3000);
    assert_eq!(c.get_payload(&PayloadType::Devicetree).unwrap().address, 0x3000);
    c.remove_payload(&PayloadType::Devicetree);
    assert!(c.get_payload(&PayloadType::Devicetree).is_none());
}

#[test]
fn payload_kinds_and_their_keys() {
    assert_eq!(PayloadType::Kernel.as_str(), "kernel_addr_r");
    assert_eq!(PayloadType::from_str("fdt_addr_r"), Ok(PayloadType::Devicetree));
    assert_eq!(PayloadType::from_str("ramdisk_addr_r"), Ok(PayloadType::Ramdisk));
    assert_eq!(PayloadType::from_str("initrd"), Err(LwipError::IllegalArgument));
}

#[test]
fn integer_literals_in_four_radixes() {
    assert_eq!(parse_int("0x1F"), Ok(31));
    assert_eq!(parse_int("0o17"), Ok(15));
    assert_eq!(parse_int("0b101"), Ok(5));
    assert_eq!(parse_int("1234"), Ok(1234));
    assert_eq!(parse_int("+7"), Ok(7));
    assert_eq!(parse_int("18446744073709551615"), Ok(u64::MAX));
    assert_eq!(parse_int("18446744073709551616"), Err(ParseIntError::PosOverflow));
    assert_eq!(parse_int(""), Err(ParseIntError::Empty));
    assert_eq!(parse_int("0x"), Err(ParseIntError::Empty));
    assert_eq!(parse_int("12a"), Err(ParseIntError::InvalidDigit));
    assert_eq!(parse_int("-1"), Err(ParseIntError::InvalidDigit));
    assert_eq!(parse_int("+"), Err(ParseIntError::InvalidDigit));
}

#[test]
fn a_failed_copy_keeps_the_offset_and_is_a_buffer_error() {
    let mut c = BootController::new();
    assert_eq!(c.payload_target(PayloadType::Kernel, 300, 100, Some("0x80000")), Ok(0x80000));
    assert_eq!(c.get_payload(&PayloadType::Kernel).unwrap().offset, 0);
    assert_eq!(
        c.put_payload_bytes(PayloadType::Kernel, 100, -1),
        Err(BootError::Copy(LwipError::Buffer))
    );
    assert_eq!(c.get_payload(&PayloadType::Kernel).unwrap().offset, 0);
    assert_eq!(c.put_payload_bytes(PayloadType::Kernel, 100, 0), Ok(()));
    assert_eq!(c.get_payload(&PayloadType::Kernel).unwrap().offset, 100);
    assert_eq!(c.put_payload_bytes(PayloadType::Ramdisk, 1, 0), Err(BootError::OutOfBounds));
}
