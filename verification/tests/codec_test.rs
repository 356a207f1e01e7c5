use bytes::{Bytes, BytesMut};
use grpc_project::client::DEFAULT_MAX_FRAME_SIZE;
use grpc_project::codec::{Frame, GrpcCodec};
use grpc_project::Error;

const TEST_MESSAGE_SIZE: usize = 1024;

#[test]
fn test_codec_new() {
    let codec = GrpcCodec::new();
    assert_eq!(codec.max_message_size(), DEFAULT_MAX_FRAME_SIZE);
}

#[test]
fn test_codec_with_max_message_size() {
    let codec = GrpcCodec::new().with_max_message_size(1024);
    assert_eq!(codec.max_message_size(), 1024);
}

#[test]
fn test_codec_default_limit_is_four_mebibytes() {
    let codec = GrpcCodec::default();
    assert_eq!(codec.max_message_size(), 4 * 1024 * 1024);
    assert_eq!(grpc_project::DEFAULT_MAX_MESSAGE_SIZE, 4 * 1024 * 1024);
}

#[test]
fn test_codec_encode_decode() {
    let mut codec = GrpcCodec::new().with_max_message_size(TEST_MESSAGE_SIZE);
    let mut buf = BytesMut::new();

    let data = Bytes::from("test");
    let frame = Frame::new(data.clone(), false);

    assert!(codec.encode(frame, &mut buf).is_ok());
    let decoded = codec.decode(&mut buf).unwrap().unwrap();

    assert_eq!(decoded.data, data);
    assert!(!decoded.header.compressed);
}

#[test]
fn test_message_size_limit() {
    let mut codec = GrpcCodec::new().with_max_message_size(10);
    let mut buf = BytesMut::new();

    let data = Bytes::from(vec![0; 20]);
    let frame = Frame::new(data, false);

    assert!(matches!(
        codec.encode(frame, &mut buf),
        Err(Error::MessageTooLarge(_))
    ));
}

#[test]
fn codec_test_test_partial_decode() {
    let mut codec = GrpcCodec::new().with_max_message_size(TEST_MESSAGE_SIZE);
    let mut buf = BytesMut::new();

    assert!(codec.decode(&mut buf).unwrap().is_none());

    buf.extend_from_slice(&[0]);
    assert!(codec.decode(&mut buf).unwrap().is_none());
}

#[test]
fn test_multiple_frames() {
    let mut codec = GrpcCodec::new().with_max_message_size(TEST_MESSAGE_SIZE);
    let mut buf = BytesMut::new();

    let frame1 = Frame::new(Bytes::from("frame1"), false);
    let frame2 = Frame::new(Bytes::from("frame2"), false);

    codec.encode(frame1, &mut buf).unwrap();
    codec.encode(frame2, &mut buf).unwrap();

    let decoded1 = codec.decode(&mut buf).unwrap().unwrap();
    let decoded2 = codec.decode(&mut buf).unwrap().unwrap();

    assert_eq!(decoded1.data, Bytes::from("frame1"));
    assert_eq!(decoded2.data, Bytes::from("frame2"));
    assert!(buf.is_empty());
}

#[test]
fn test_encode_too_large_writes_nothing_and_reports_length() {
    let mut codec = GrpcCodec::new().with_max_message_size(10);
    let mut buf = BytesMut::new();
    buf.extend_from_slice(&[7, 7]);
    let frame = Frame::new(Bytes::from(vec![1; 11]), true);
    match codec.encode(frame, &mut buf) {
        Err(Error::MessageTooLarge(n)) => assert_eq!(n, 11),
        other => panic!("unexpected: {:?}", other),
    }
    assert_eq!(&buf[..], &[7, 7]);
}

#[test]
fn test_encode_at_the_limit_is_accepted() {
    let mut codec = GrpcCodec::new().with_max_message_size(10);
    let mut buf = BytesMut::new();
    let frame = Frame::new(Bytes::from(vec![1; 10]), false);
    assert!(codec.encode(frame, &mut buf).is_ok());
    assert_eq!(buf.len(), 15);
}

#[test]
fn test_decode_too_large_is_detected_on_a_whole_frame() {
    let mut wide = GrpcCodec::new().with_max_message_size(TEST_MESSAGE_SIZE);
    let mut narrow = GrpcCodec::new().with_max_message_size(10);
    let mut buf = BytesMut::new();
    wide.encode(Frame::new(Bytes::from(vec![9; 20]), false), &mut buf)
        .unwrap();
    wide.encode(Frame::new(Bytes::from("next"), false), &mut buf)
        .unwrap();
    match narrow.decode(&mut buf) {
        Err(Error::MessageTooLarge(n)) => assert_eq!(n, 20),
        other => panic!("unexpected: {:?}", other),
    }
    let next = narrow.decode(&mut buf).unwrap().unwrap();
    assert_eq!(next.data, Bytes::from("next"));
}

#[test]
fn test_decode_waits_for_an_oversized_frame_that_is_not_whole() {
    let mut narrow = GrpcCodec::new().with_max_message_size(10);
    let mut buf = BytesMut::new();
    buf.extend_from_slice(&[0, 0, 0, 0, 20, 1, 2, 3]);
    assert!(narrow.decode(&mut buf).unwrap().is_none());
    assert_eq!(buf.len(), 8);
}
