use bytes::Bytes;
use wasm_oss::boot::{BootController, BootError, PayloadType};
use wasm_oss::console::{is_blank, ConsoleAction, LineEditor};
use wasm_oss::dns::Dns;
use wasm_oss::hex::push_hex;
use wasm_oss::ipv4::ip_addr_to_u32;
use wasm_oss::lwip_error::LwipError;
use wasm_oss::net::{
    accept_status, completion_status, dns_status, ipv4_octets, issue_result,
    read_status, socket_result, PollStatus, SocketTable,
};
use wasm_oss::scheduler::{Executor, RunStep};
use wasm_oss::server::{decode_request_header, encode_response_header, route, RpcError, Route};
use wasm_oss::timeout::{race_outcome, KeyPress, Sleep, TimeoutController, TimeoutError};
use wasm_oss::upload::{BootUpload, ChainUpload, LoadAddresses, UploadEvent};

#[test]
fn a_completed_task_is_not_resumed_by_a_stale_wake() {
    let mut ex = Executor::new();
    let t = ex.spawn();
    assert_eq!(ex.run_step(), RunStep::Poll(t));
    ex.complete(t, true);
    ex.wake(t);
    ex.wake(t);
    assert_eq!(ex.run_step(), RunStep::Idle);
    assert_eq!(ex.active_tasks(), 0);
}

#[test]
fn ready_tasks_run_in_wake_order() {
    let mut ex = Executor::new();
    let a = ex.spawn();
    let b = ex.spawn();
    assert_eq!(ex.next_task(), Some(a));
    assert_eq!(ex.next_task(), Some(b));
    ex.complete(a, false);
    ex.complete(b, false);
    ex.wake(b);
    ex.wake(a);
    assert_eq!(ex.next_task(), Some(b));
    assert_eq!(ex.next_task(), Some(a));
    assert_eq!(ex.next_task(), None);
    assert_eq!(ex.active_tasks(), 2);
}

#[test]
fn exit_wakes_every_waiting_task_once() {
    let mut ex = Executor::new();
    let a = ex.spawn();
    let b = ex.spawn();
    assert_eq!(ex.run_step(), RunStep::Poll(a));
    assert!(!ex.wait_for_exit(a));
    assert!(!ex.wait_for_exit(a));
    assert_eq!(ex.run_step(), RunStep::Poll(b));
    assert!(!ex.wait_for_exit(b));
    assert_eq!(ex.run_step(), RunStep::Idle);
    ex.exit();
    let mut resumed = Vec::new();
    loop {
        match ex.run_step() {
            RunStep::Poll(t) => {
                assert!(ex.wait_for_exit(t));
                ex.complete(t, true);
                resumed.push(t);
            }
            RunStep::Exit => break,
            RunStep::Idle => panic!("idle after exit"),
        }
    }
    assert_eq!(resumed, vec![a, b]);
}

#[test]
fn a_second_lookup_waits_for_the_first() {
    let mut dns = Dns::new();
    assert!(dns.try_acquire(1));
    assert!(!dns.try_acquire(2));
    assert!(!dns.try_acquire(2));
    assert_eq!(dns.release(), Some(2));
    assert!(dns.try_acquire(2));
    assert!(!dns.try_acquire(1));
    assert_eq!(dns.release(), Some(1));
    assert!(dns.try_acquire(1));
    assert_eq!(dns.release(), None);
}

#[test]
fn the_last_release_frees_the_socket_once() {
    let mut table = SocketTable::new();
    let s = table.insert(42);
    table.acquire(s);
    table.acquire(s);
    assert_eq!(table.socket_of(s), 42);
    assert_eq!(table.release(s), None);
    assert_eq!(table.release(s), None);
    assert_eq!(table.release(s), Some(42));
}

#[test]
fn status_codes_of_the_primitives() {
    assert_eq!(read_status(-7), PollStatus::Pending);
    assert_eq!(read_status(0), PollStatus::Pending);
    assert_eq!(read_status(12), PollStatus::Ready(12));
    assert_eq!(read_status(-14), PollStatus::Failed(LwipError::ConnectionReset));
    assert_eq!(completion_status(-7), PollStatus::Pending);
    assert_eq!(completion_status(0), PollStatus::Ready(()));
    assert_eq!(completion_status(-11), PollStatus::Failed(LwipError::NotConnected));
    assert_eq!(accept_status(-7), PollStatus::Pending);
    assert_eq!(accept_status(3), PollStatus::Ready(3));
    assert_eq!(accept_status(-13), PollStatus::Failed(LwipError::ConnectionAborted));
    assert_eq!(dns_status(0), PollStatus::Ready(()));
    assert_eq!(dns_status(-5), PollStatus::Pending);
    assert_eq!(dns_status(-3), PollStatus::Failed(LwipError::Timeout));
    assert_eq!(issue_result(0), Ok(()));
    assert_eq!(issue_result(-8), Err(LwipError::AddressInUse));
    assert_eq!(socket_result(4), Ok(4));
    assert_eq!(socket_result(-1), Err(LwipError::OutOfMemory));
}

#[test]
fn ipv4_octets_and_values() {
    assert_eq!(ipv4_octets(0x0101a8c0), [192, 168, 1, 1]);
    assert_eq!(ip_addr_to_u32("8.8.4.4"), Ok(0x04040808));
    assert_eq!(ip_addr_to_u32("192.168.1.1"), Ok(0x0101a8c0));
    assert_eq!(ip_addr_to_u32("0.0.0.0"), Ok(0));
    assert_eq!(ip_addr_to_u32("255.255.255.255"), Ok(u32::MAX));
    for bad in ["", "1.2.3", "1.2.3.4.5", "256.1.1.1", "01.2.3.4", "1..2.3", "1.2.3.4 ", "a.b.c.d", "1.2.3.1000"] {
        assert_eq!(ip_addr_to_u32(bad), Err(LwipError::IllegalArgument), "{}", bad);
    }
}

#[test]
fn timeout_controller_races() {
    let mut t = TimeoutController::new(500);
    assert_eq!(t.duration_ms(), 500);
    assert!(!t.poll(7));
    assert_eq!(t.set_expired(), Some(7));
    assert!(t.is_expired());
    assert!(t.poll(7));
    t.reset();
    assert!(!t.is_expired());
    assert_eq!(race_outcome(true, Some(1)), Some(Err(TimeoutError::TimedOut)));
    assert_eq!(race_outcome(false, Some(1)), Some(Ok(1)));
    assert_eq!(race_outcome::<u8>(false, None), None);
    assert_eq!(TimeoutError::TimedOut.to_string(), "Operation timed out");
}

#[test]
fn sleeps_and_keys() {
    let s = Sleep::new(100, 50);
    assert!(!s.is_due(149));
    assert!(s.is_due(150));
    assert_eq!(Sleep::new(u64::MAX - 1, 10).deadline, u64::MAX);
    assert_eq!(KeyPress::key_event(-1), None);
    assert_eq!(KeyPress::key_event(13), Some(13));
}

#[test]
fn line_editing() {
    let mut e = LineEditor::new();
    assert_eq!(e.on_key(127), ConsoleAction::Ignore);
    assert_eq!(e.on_key('h' as i32), ConsoleAction::Echo(b'h'));
    assert_eq!(e.on_key('x' as i32), ConsoleAction::Echo(b'x'));
    assert_eq!(e.on_key(127), ConsoleAction::Erase);
    assert_eq!(e.on_key('i' as i32), ConsoleAction::Echo(b'i'));
    assert_eq!(e.on_key(7), ConsoleAction::Ignore);
    assert_eq!(e.on_key(13), ConsoleAction::Submit(b"hi".to_vec()));
    assert_eq!(e.on_key(13), ConsoleAction::Submit(Vec::new()));
    assert!(is_blank(&b"   ".to_vec()));
    assert!(!is_blank(&b" a ".to_vec()));
}

#[test]
fn routes_and_headers() {
    assert_eq!(route("GET", "/"), Route::Index);
    assert_eq!(route("POST", "/api/v1/rpc"), Route::Rpc);
    assert_eq!(route("GET", "/api/v1/rpc"), Route::NotFound);
    assert!(matches!(decode_request_header(None), Err(RpcError::MissingHeader)));
    assert_eq!(decode_request_header(Some("aGk=")).unwrap(), b"hi".to_vec());
    let bad = decode_request_header(Some("!!"));
    assert!(matches!(bad, Err(RpcError::InvalidBase64(_))));
    assert_eq!(bad.unwrap_err().status_code(), 400);
    assert_eq!(encode_response_header(&b"hi".to_vec()), "aGk=");
}

#[test]
fn hex_digits() {
    let mut s = String::from("0x");
    push_hex(&mut s, 0);
    assert_eq!(s, "0x0");
    let mut s = String::new();
    push_hex(&mut s, 0xdeadbeef);
    assert_eq!(s, "deadbeef");
    let mut s = String::new();
    push_hex(&mut s, u64::MAX);
    assert_eq!(s, "ffffffffffffffff");
}

fn body(pairs: &[(&str, &[u8])]) -> Vec<u8> {
    let mut out = vec![0x80 | pairs.len() as u8];
    for (k, v) in pairs {
        out.push(0xa0 | k.len() as u8);
        out.extend_from_slice(k.as_bytes());
        out.push(0xc5);
        out.extend_from_slice(&(v.len() as u16).to_be_bytes());
        out.extend_from_slice(v);
    }
    out
}

#[test]
fn an_upload_stages_components_and_boots() {
    let kernel = [7u8; 300];
    let stream = body(&[
        ("kernel_addr_r", &kernel),
        ("unknown", b"zz"),
        ("ramdisk_addr_r", b"abcd"),
        ("fdt_addr_r", b"dt"),
    ]);
    let addresses = LoadAddresses {
        kernel: Some("0x80000".to_string()),
        devicetree: Some("0x2000".to_string()),
        ramdisk: Some("0x1000".to_string()),
    };
    let mut controller = BootController::new();
    let mut upload = BootUpload::new();
    let mut copies = Vec::new();
    let mut unknown = 0;
    for piece in stream.chunks(64) {
        upload.feed(Bytes::copy_from_slice(piece));
        while let Some(ev) = upload.next_event(&mut controller, &addresses) {
            match ev {
                UploadEvent::Copy { payload_type, address, data, .. } => {
                    controller.put_payload_bytes(payload_type, data.len() as u64, 0).unwrap();
                    copies.push((payload_type, address, data.len()))
                }
                UploadEvent::UnknownKey { .. } => unknown += 1,
                other => panic!("unexpected {:?}", other),
            }
        }
    }
    assert!(unknown >= 1);
    let kernel_bytes: usize = copies
        .iter()
        .filter(|c| c.0 == PayloadType::Kernel)
        .map(|c| c.2)
        .sum();
    assert_eq!(kernel_bytes, 300);
    assert_eq!(copies[0], (PayloadType::Kernel, 0x80000, copies[0].2));
    assert_eq!(controller.get_payload(&PayloadType::Kernel).unwrap().offset, 300);
    assert_eq!(controller.boot(None).unwrap(), "booti 80000 1000:4 2000");
}

#[test]
fn an_upload_without_addresses_reports_staging_errors() {
    let stream = body(&[("ramdisk_addr_r", b"abcd")]);
    let addresses = LoadAddresses { kernel: None, devicetree: None, ramdisk: None };
    let mut controller = BootController::new();
    let mut upload = BootUpload::new();
    upload.feed(Bytes::from(stream));
    match upload.next_event(&mut controller, &addresses) {
        Some(UploadEvent::Staging { payload_type, error, .. }) => {
            assert_eq!(payload_type, PayloadType::Ramdisk);
            assert_eq!(error, BootError::AddressUnavailable);
        }
        other => panic!("unexpected {:?}", other),
    }
}

#[test]
fn a_chain_upload_places_pieces_within_its_size() {
    let mut u = ChainUpload::new(10);
    assert_eq!(u.place(4), Some(0));
    assert_eq!(u.place(6), Some(4));
    assert_eq!(u.place(1), None);
    assert_eq!(u.place(0), Some(10));
}
