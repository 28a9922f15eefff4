use bytes::Bytes;
use wasm_oss::msgpack::{parse_map_size, KeyedBytes, MessagePackByteStream};
use wasm_oss::msgpack_error::MessagePackError;

fn encode(pairs: &[(&str, &[u8])]) -> Vec<u8> {
    let mut out = vec![0x80 | pairs.len() as u8];
    for (k, v) in pairs {
        out.push(0xa0 | k.len() as u8);
        out.extend_from_slice(k.as_bytes());
        out.push(0xc6);
        out.extend_from_slice(&(v.len() as u32).to_be_bytes());
        out.extend_from_slice(v);
    }
    out
}

fn drain(d: &mut MessagePackByteStream, out: &mut Vec<(String, u64, Vec<u8>)>) {
    while let Some(r) = d.process_bytes() {
        let kb: KeyedBytes = r.expect("decode error");
        out.push((kb.key.clone(), kb.length, kb.data.to_vec()));
    }
}

fn decode_in_pieces(stream: &[u8], size: usize) -> Vec<(String, u64, Vec<u8>)> {
    let mut d = MessagePackByteStream::new();
    let mut out = Vec::new();
    for piece in stream.chunks(size) {
        d.extend_buffer(Bytes::copy_from_slice(piece));
        drain(&mut d, &mut out);
    }
    out
}

fn per_key(obs: &[(String, u64, Vec<u8>)]) -> Vec<(String, u64, Vec<u8>)> {
    let mut merged: Vec<(String, u64, Vec<u8>)> = Vec::new();
    for (k, l, d) in obs {
        match merged.last_mut() {
            Some(last) if last.0 == *k => last.2.extend_from_slice(d),
            _ => merged.push((k.clone(), *l, d.clone())),
        }
    }
    merged
}

#[test]
fn reassembly_is_the_same_for_every_piece_size() {
    let value_a: Vec<u8> = (0..300u32).map(|i| (i % 251) as u8).collect();
    let value_b = b"ramdisk!".to_vec();
    let stream = encode(&[("kernel_addr_r", &value_a), ("ramdisk_addr_r", &value_b)]);
    let whole = per_key(&decode_in_pieces(&stream, stream.len()));
    assert_eq!(whole.len(), 2);
    assert_eq!(whole[0], ("kernel_addr_r".to_string(), 300, value_a.clone()));
    assert_eq!(whole[1], ("ramdisk_addr_r".to_string(), 8, value_b.clone()));
    for size in 1..40 {
        assert_eq!(per_key(&decode_in_pieces(&stream, size)), whole);
    }
}

#[test]
fn value_bytes_come_out_before_the_value_is_complete() {
    let stream = encode(&[("k", &[1, 2, 3, 4, 5, 6])]);
    let mut d = MessagePackByteStream::new();
    d.extend_buffer(Bytes::copy_from_slice(&stream[..stream.len() - 4]));
    let first = d.process_bytes().unwrap().unwrap();
    assert_eq!(first.key, "k");
    assert_eq!(first.length, 6);
    assert_eq!(first.data.to_vec(), vec![1, 2]);
    assert!(d.process_bytes().is_none());
    d.extend_buffer(Bytes::copy_from_slice(&stream[stream.len() - 4..]));
    let second = d.process_bytes().unwrap().unwrap();
    assert_eq!(second.data.to_vec(), vec![3, 4, 5, 6]);
    assert!(d.process_bytes().is_none());
}

#[test]
fn short_forms_of_sizes_are_read() {
    // map16 with one pair, str8 key, bin8 value
    let s = vec![0xde, 0x00, 0x01, 0xd9, 0x01, b'x', 0xc4, 0x02, 9, 8];
    let out = per_key(&decode_in_pieces(&s, 1));
    assert_eq!(out, vec![("x".to_string(), 2, vec![9, 8])]);
}

#[test]
fn str16_str32_and_bin16_are_read() {
    let s = vec![
        0x82, 0xda, 0x00, 0x01, b'a', 0xc5, 0x00, 0x01, 7, 0xdb, 0x00, 0x00, 0x00, 0x01, b'b', 0xc4,
        0x01, 6,
    ];
    let out = per_key(&decode_in_pieces(&s, 3));
    assert_eq!(out, vec![("a".to_string(), 1, vec![7]), ("b".to_string(), 1, vec![6])]);
}

#[test]
fn an_empty_map_yields_nothing() {
    assert!(decode_in_pieces(&[0x80], 1).is_empty());
}

#[test]
fn a_truncated_size_prefix_waits_for_more() {
    let mut d = MessagePackByteStream::new();
    d.extend_buffer(Bytes::copy_from_slice(&[0xdf, 0x00, 0x00]));
    assert!(d.process_bytes().is_none());
    d.extend_buffer(Bytes::copy_from_slice(&[0x00, 0x01, 0xa1, b'z', 0xc4, 0x01, 5]));
    let kb = d.process_bytes().unwrap().unwrap();
    assert_eq!((kb.key.as_str(), kb.length, kb.data.to_vec()), ("z", 1, vec![5]));
}

#[test]
fn a_non_map_marker_is_an_error() {
    let mut d = MessagePackByteStream::new();
    d.extend_buffer(Bytes::copy_from_slice(&[0x91, 0x01]));
    match d.process_bytes() {
        Some(Err(MessagePackError::UnexpectedFormat(m))) => {
            assert_eq!(m, "Expected map marker, got: 0x91")
        }
        other => panic!("unexpected {:?}", other),
    }
    assert!(d.process_bytes().is_none());
}

#[test]
fn a_non_string_key_is_an_error() {
    let mut d = MessagePackByteStream::new();
    d.extend_buffer(Bytes::copy_from_slice(&[0x81, 0x01]));
    assert!(matches!(d.process_bytes(), Some(Err(MessagePackError::UnexpectedFormat(_)))));
}

#[test]
fn a_non_binary_value_is_an_error() {
    let mut d = MessagePackByteStream::new();
    d.extend_buffer(Bytes::copy_from_slice(&[0x81, 0xa1, b'k', 0x01]));
    match d.process_bytes() {
        Some(Err(e)) => assert_eq!(e.to_string(), "Unexpected format: Expected binary marker for value"),
        other => panic!("unexpected {:?}", other),
    }
}

#[test]
fn a_key_that_is_not_utf8_is_an_error() {
    let mut d = MessagePackByteStream::new();
    d.extend_buffer(Bytes::copy_from_slice(&[0x81, 0xa2, 0xff, 0xfe, 0xc4, 0x00]));
    assert!(matches!(d.process_bytes(), Some(Err(MessagePackError::InvalidString(_)))));
}

#[test]
fn map_sizes_are_parsed_after_the_marker() {
    let mut b = bytes::BytesMut::from(&[0x01u8, 0x02, 0xaa][..]);
    assert_eq!(parse_map_size(0x83, &mut b).unwrap().unwrap(), 3);
    assert_eq!(parse_map_size(0xde, &mut b).unwrap().unwrap(), 0x0102);
    assert_eq!(&b[..], &[0xaa]);
    assert!(parse_map_size(0xdf, &mut b).is_none());
    assert_eq!(&b[..], &[0xaa]);
    assert!(matches!(parse_map_size(0x00, &mut b), Some(Err(_))));
}

#[test]
fn a_whole_value_comes_out_as_one_chunk() {
    let mut d = MessagePackByteStream::new();
    d.extend_buffer(Bytes::from(vec![0x81, 0xa1, b'k', 0xc4, 0x03, 1, 2, 3]));
    let kb = d.process_bytes().unwrap().unwrap();
    assert_eq!((kb.key.as_str(), kb.length, kb.data.to_vec()), ("k", 3, vec![1, 2, 3]));
    assert!(d.process_bytes().is_none());
}

#[test]
fn a_chunk_takes_every_buffered_byte_of_the_value() {
    let mut d = MessagePackByteStream::new();
    d.extend_buffer(Bytes::from(vec![0x81, 0xa1, b'k', 0xc4, 0x03, 1]));
    let first = d.process_bytes().unwrap().unwrap();
    assert_eq!((first.key.as_str(), first.length, first.data.to_vec()), ("k", 3, vec![1]));
    d.extend_buffer(Bytes::from(vec![2, 3]));
    let second = d.process_bytes().unwrap().unwrap();
    assert_eq!((second.key.as_str(), second.length, second.data.to_vec()), ("k", 3, vec![2, 3]));
}

#[test]
fn a_key_of_one_invalid_byte_is_an_invalid_string() {
    let mut d = MessagePackByteStream::new();
    d.extend_buffer(Bytes::from(vec![0x81, 0xa1, 0xff]));
    assert!(matches!(d.process_bytes(), Some(Err(MessagePackError::InvalidString(_)))));
}

#[test]
fn decoding_pieces_reassembles_every_value() {
    let value_a: Vec<u8> = (0..70u32).map(|i| i as u8).collect();
    let stream = encode(&[("kernel_addr_r", &value_a), ("fdt_addr_r", b"dtb")]);
    for size in [1usize, 2, 5, 13, stream.len()] {
        let pieces: Vec<Bytes> = stream.chunks(size).map(Bytes::copy_from_slice).collect();
        let chunks = wasm_oss::msgpack::decode_pieces(pieces).expect("valid stream");
        let obs: Vec<(String, u64, Vec<u8>)> =
            chunks.iter().map(|k| (k.key.clone(), k.length, k.data.to_vec())).collect();
        assert_eq!(
            per_key(&obs),
            vec![
                ("kernel_addr_r".to_string(), 70, value_a.clone()),
                ("fdt_addr_r".to_string(), 3, b"dtb".to_vec())
            ]
        );
    }
}

#[test]
fn decoding_pieces_stops_at_the_first_error() {
    let pieces = vec![Bytes::from(vec![0x81, 0xa1]), Bytes::from(vec![b'k', 0x07])];
    assert!(matches!(
        wasm_oss::msgpack::decode_pieces(pieces),
        Err(MessagePackError::UnexpectedFormat(_))
    ));
}
