use bgp::error::DecodeError;
use bgp::message::{from_bytes, keepalive_message, open_message, Bgp, Message};
use bgp::open::{parse_capabilities, MessageOpen};
use bgp::wire::{decode_header, encode_header, Header};
use bytes::BytesMut;

fn header(len: u16, typ: u8) -> Vec<u8> {
    let mut v = vec![0xffu8; 16];
    v.push((len >> 8) as u8);
    v.push(len as u8);
    v.push(typ);
    v
}

fn open_with_options(opts: &[u8], opt_param_len: u8) -> Vec<u8> {
    let total = 29 + opts.len();
    let mut v = header(total as u16, 1);
    v.extend_from_slice(&[4, 0, 1, 0, 3, 10, 0, 0, 1, opt_param_len]);
    v.extend_from_slice(opts);
    v
}

#[test]
fn open_round_trip() {
    let bytes = open_message(1, 3, [10, 0, 0, 1]);
    assert_eq!(bytes.len(), 29);
    match from_bytes(&bytes) {
        Ok(Some(Message::Open(m))) => {
            assert_eq!(m.version, 4);
            assert_eq!(m.asn, 1);
            assert_eq!(m.hold_time, 3);
            assert_eq!(m.router_id, [10, 0, 0, 1]);
            assert_eq!(m.len(), 29);
            assert!(m.caps.is_empty());
        }
        _ => panic!("expected an OPEN message"),
    }
}

#[test]
fn open_bytes_exact() {
    let bytes = open_message(0x1234, 0x00b4, [192, 0, 2, 7]);
    let mut expected = vec![0xffu8; 16];
    expected.extend_from_slice(&[0, 29, 1, 4, 0x12, 0x34, 0x00, 0xb4, 192, 0, 2, 7, 0]);
    assert_eq!(bytes, expected);
}

#[test]
fn keepalive_bytes_exact() {
    let bytes = keepalive_message();
    let mut expected = vec![0xffu8; 16];
    expected.extend_from_slice(&[0, 19, 4]);
    assert_eq!(bytes, expected);
}

#[test]
fn short_buffer_needs_more_data() {
    let full = open_message(1, 3, [10, 0, 0, 1]);
    for l in 0..19 {
        assert!(matches!(from_bytes(&full[..l]), Ok(None)));
        let mut buf = BytesMut::new();
        buf.extend_from_slice(&full[..l]);
        let mut codec = Bgp {};
        assert!(matches!(codec.decode(&mut buf), Ok(None)));
        assert_eq!(&buf[..], &full[..l]);
    }
}

#[test]
fn incomplete_message_needs_more_data() {
    let full = open_message(1, 3, [10, 0, 0, 1]);
    assert!(matches!(from_bytes(&full[..28]), Ok(None)));
}

#[test]
fn header_encode_decode() {
    let marker = [0xffu8; 16];
    let h = encode_header(4, 19, &marker);
    assert_eq!(h.len(), 19);
    assert_eq!(decode_header(&h), Ok(Header { typ: 4, length: 19 }));
    let h = encode_header(2, 0x0102, &[7u8; 16]);
    assert_eq!(&h[..16], &[7u8; 16]);
    assert_eq!(&h[16..], &[1, 2, 2]);
    assert_eq!(decode_header(&h[..18]), Err(DecodeError::Truncated));
}

#[test]
fn header_length_out_of_range() {
    let mut v = header(18, 4);
    v.push(0);
    assert!(matches!(from_bytes(&v), Err(DecodeError::LengthMismatch)));
    let mut v = header(4097, 2);
    v.resize(4097, 0);
    assert!(matches!(from_bytes(&v), Err(DecodeError::LengthMismatch)));
}

#[test]
fn other_types_are_placeholders() {
    for typ in [2u8, 3, 4] {
        let v = header(19, typ);
        assert!(matches!(from_bytes(&v), Ok(Some(Message::RouteRefresh))));
    }
}

#[test]
fn decode_consumes_exactly_one_message() {
    let mut buf = BytesMut::new();
    buf.extend_from_slice(&open_message(1, 3, [10, 0, 0, 1]));
    buf.extend_from_slice(&keepalive_message());
    buf.extend_from_slice(&[0xff, 0xff]);
    let mut codec = Bgp {};
    assert!(matches!(codec.decode(&mut buf), Ok(Some(Message::Open(_)))));
    assert_eq!(buf.len(), 21);
    assert!(matches!(codec.decode(&mut buf), Ok(Some(Message::RouteRefresh))));
    assert_eq!(&buf[..], &[0xff, 0xff]);
    assert!(matches!(codec.decode(&mut buf), Ok(None)));
    assert_eq!(buf.len(), 2);
}

#[test]
fn decode_error_leaves_buffer() {
    let v = open_with_options(&[], 5);
    let mut buf = BytesMut::new();
    buf.extend_from_slice(&v);
    let mut codec = Bgp {};
    assert!(matches!(codec.decode(&mut buf), Err(DecodeError::LengthMismatch)));
    assert_eq!(buf.len(), v.len());
}

#[test]
fn open_opt_param_len_too_large() {
    let v = open_with_options(&[2, 2, 1, 0], 9);
    assert!(matches!(from_bytes(&v), Err(DecodeError::LengthMismatch)));
}

#[test]
fn open_opt_param_len_too_small() {
    let v = open_with_options(&[2, 2, 1, 0], 2);
    assert!(matches!(from_bytes(&v), Err(DecodeError::LengthMismatch)));
}

#[test]
fn open_with_capabilities() {
    let opts = [2, 8, 1, 4, 0, 1, 0, 1, 2, 0];
    let v = open_with_options(&opts, 10);
    match from_bytes(&v) {
        Ok(Some(Message::Open(m))) => {
            assert_eq!(m.len(), 39);
            assert_eq!(m.caps.len(), 2);
            assert_eq!(m.caps[0].code, 1);
            assert_eq!(m.caps[0].value, vec![0, 1, 0, 1]);
            assert_eq!(m.caps[1].code, 2);
            assert!(m.caps[1].value.is_empty());
        }
        _ => panic!("expected an OPEN message"),
    }
}

#[test]
fn open_unsupported_option() {
    let v = open_with_options(&[1, 2, 0, 0], 4);
    assert!(matches!(from_bytes(&v), Err(DecodeError::UnsupportedOption)));
}

#[test]
fn open_capability_length_mismatch() {
    let v = open_with_options(&[2, 3, 1, 0, 0], 4);
    assert!(matches!(from_bytes(&v), Err(DecodeError::LengthMismatch)));
}

#[test]
fn open_truncated_fields() {
    assert!(matches!(MessageOpen::from_bytes(&[4, 0, 1, 0, 3, 10, 0, 0, 1], 28), Err(DecodeError::Truncated)));
    assert!(matches!(MessageOpen::from_bytes(&[4, 0, 1, 0, 3, 10, 0, 0, 1, 1, 2], 30), Err(DecodeError::Truncated)));
}

#[test]
fn capabilities_in_order() {
    let block = [65, 4, 0, 0, 0xfd, 0xe8, 1, 4, 0, 1, 0, 1, 65, 0];
    let caps = parse_capabilities(&block).unwrap();
    assert_eq!(caps.len(), 3);
    assert_eq!(caps[0].code, 65);
    assert_eq!(caps[0].value, vec![0, 0, 0xfd, 0xe8]);
    assert_eq!(caps[1].code, 1);
    assert_eq!(caps[1].value, vec![0, 1, 0, 1]);
    assert_eq!(caps[2].code, 65);
    assert!(caps[2].value.is_empty());
    assert!(parse_capabilities(&[]).unwrap().is_empty());
}

#[test]
fn capability_overrun() {
    assert!(matches!(parse_capabilities(&[1, 4, 0, 1, 0, 1, 2, 3, 0]), Err(DecodeError::LengthMismatch)));
    assert!(matches!(parse_capabilities(&[1, 0, 2]), Err(DecodeError::Truncated)));
}
