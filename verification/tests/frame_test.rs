use bytes::{Bytes, BytesMut};
use grpc_project::codec::frame::Frame;

#[test]
fn test_frame_creation() {
    let data = Bytes::from("test");
    let frame = Frame::new(data.clone(), false);
    assert_eq!(frame.data, data);
    assert_eq!(frame.header.compressed, false);
    assert_eq!(frame.len(), 4);
}

#[test]
fn test_frame_encode_decode() {
    let data = Bytes::from("test");
    let frame = Frame::new(data.clone(), false);
    let mut buf = BytesMut::new();

    frame.encode(&mut buf);
    let decoded = Frame::decode(&mut buf).unwrap();

    assert_eq!(decoded.data, data);
    assert_eq!(decoded.header.compressed, false);
    assert_eq!(decoded.len(), frame.len());
}

#[test]
fn test_empty_frame() {
    let data = Bytes::from("");
    let frame = Frame::new(data, false);
    assert!(frame.is_empty());
}

#[test]
fn frame_test_test_partial_decode() {
    let mut buf = BytesMut::new();
    assert!(Frame::decode(&mut buf).is_none());

    buf.extend_from_slice(&[0]);
    assert!(Frame::decode(&mut buf).is_none());

    buf.extend_from_slice(&[0, 0, 0, 1]);
    assert!(Frame::decode(&mut buf).is_none());
}

#[test]
fn test_compressed_frame() {
    let data = Bytes::from("test");
    let frame = Frame::new(data.clone(), true);
    let mut buf = BytesMut::new();

    frame.encode(&mut buf);
    let decoded = Frame::decode(&mut buf).unwrap();

    assert_eq!(decoded.data, data);
    assert_eq!(decoded.header.compressed, true);
}

#[test]
fn test_wire_form_is_flag_length_payload() {
    let frame = Frame::new(Bytes::from("test"), false);
    let mut buf = BytesMut::new();
    frame.encode(&mut buf);
    assert_eq!(&buf[..], &[0, 0, 0, 0, 4, b't', b'e', b's', b't']);

    let frame = Frame::new(Bytes::from("hi"), true);
    let mut buf = BytesMut::new();
    frame.encode(&mut buf);
    assert_eq!(&buf[..], &[1, 0, 0, 0, 2, b'h', b'i']);
}

#[test]
fn test_length_is_big_endian() {
    let frame = Frame::new(Bytes::from(vec![5u8; 0x01_02_03]), false);
    let mut buf = BytesMut::new();
    frame.encode(&mut buf);
    assert_eq!(&buf[..5], &[0, 0, 1, 2, 3]);
    assert_eq!(buf.len(), 5 + 0x01_02_03);
    let decoded = Frame::decode(&mut buf).unwrap();
    assert_eq!(decoded.len(), 0x01_02_03);
    assert!(buf.is_empty());
}

#[test]
fn test_encode_appends_to_what_the_buffer_holds() {
    let mut buf = BytesMut::new();
    buf.extend_from_slice(&[0, 0, 0, 0, 1]);
    Frame::new(Bytes::from("x"), false).encode(&mut buf);
    assert_eq!(&buf[..], &[0, 0, 0, 0, 1, 0, 0, 0, 0, 1, b'x']);
}

#[test]
fn test_partial_input_consumes_nothing() {
    let mut buf = BytesMut::new();
    buf.extend_from_slice(&[1, 0, 0, 0, 3, b'a', b'b']);
    assert!(Frame::decode(&mut buf).is_none());
    assert_eq!(&buf[..], &[1, 0, 0, 0, 3, b'a', b'b']);

    buf.extend_from_slice(&[b'c', 0]);
    let frame = Frame::decode(&mut buf).unwrap();
    assert!(frame.header.compressed);
    assert_eq!(frame.header.length, 3);
    assert_eq!(frame.into_data(), Bytes::from("abc"));
    assert_eq!(&buf[..], &[0]);
}

#[test]
fn test_nonzero_flag_means_compressed() {
    let mut buf = BytesMut::new();
    buf.extend_from_slice(&[2, 0, 0, 0, 0]);
    let frame = Frame::decode(&mut buf).unwrap();
    assert!(frame.header.compressed);
    assert!(frame.is_empty());
    assert!(buf.is_empty());
}

#[test]
fn test_round_trip_with_both_flags() {
    for compressed in [false, true] {
        for payload in [vec![], vec![0u8], vec![255u8; 300]] {
            let frame = Frame::new(Bytes::from(payload.clone()), compressed);
            let mut buf = BytesMut::new();
            frame.encode(&mut buf);
            let decoded = Frame::decode(&mut buf).unwrap();
            assert_eq!(decoded.header.compressed, compressed);
            assert_eq!(decoded.header.length, payload.len());
            assert_eq!(decoded.data, Bytes::from(payload));
            assert!(buf.is_empty());
        }
    }
}
