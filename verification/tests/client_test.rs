use bytes::Bytes;
use grpc_project::client::{
    endpoint_of, frame_message, request_headers, resolve, response_message, window_size,
    AddressParts, ClientConfig, DEFAULT_MAX_FRAME_SIZE,
};
use grpc_project::transport::{next_delivery, Connection};
use grpc_project::{Error, Metadata};
use std::time::Duration;

fn protocol_message<T: std::fmt::Debug>(r: Result<T, Error>) -> String {
    match r {
        Err(Error::Protocol(m)) => m,
        other => panic!("unexpected: {:?}", other),
    }
}

#[test]
fn test_config_defaults() {
    let config = ClientConfig::default();
    assert_eq!(config.max_message_size, 4 * 1024 * 1024);
    assert_eq!(config.max_concurrent_streams, 100);
    assert!(config.enable_http2_keepalive);
    assert_eq!(config.http2_keepalive_interval, Duration::from_secs(300));
    assert_eq!(config.connect_timeout, Duration::from_secs(5));
    assert_eq!(grpc_project::DEFAULT_CONNECT_TIMEOUT_SECS, 5);
    assert_eq!(grpc_project::DEFAULT_WINDOW_SIZE, 65_535);
}

#[test]
fn test_address_without_scheme_is_a_protocol_error() {
    let result = resolve("invalid-uri");
    assert!(matches!(result, Err(Error::Protocol(_))));
    assert!(matches!(resolve("127.0.0.1:50051"), Err(Error::Protocol(_))));
    assert!(matches!(resolve("ftp://host"), Err(Error::Protocol(_))));
    assert!(matches!(resolve(""), Err(Error::Protocol(_))));
    assert!(matches!(resolve("http://"), Err(Error::Protocol(_))));
}

#[test]
fn test_resolve_reads_host_and_port() {
    let ep = resolve("http://127.0.0.1:65535").unwrap();
    assert_eq!(ep.host, "127.0.0.1");
    assert_eq!(ep.port, 65535);
    let ep = resolve("https://example.com/path").unwrap();
    assert_eq!(ep.host, "example.com");
    assert_eq!(ep.port, 80);
}

#[test]
fn test_endpoint_of_each_outcome() {
    assert_eq!(
        protocol_message(endpoint_of("no uri", None)),
        "Invalid URI: no uri"
    );
    let parts = AddressParts { host: Some("h".to_string()), port: Some(1) };
    assert_eq!(
        protocol_message(endpoint_of("h:1", Some(parts))),
        "URI must start with http:// or https://"
    );
    let parts = AddressParts { host: None, port: None };
    assert_eq!(
        protocol_message(endpoint_of("http://", Some(parts))),
        "Missing host"
    );
    let parts = AddressParts { host: Some("h".to_string()), port: None };
    let ep = endpoint_of("https://h", Some(parts)).unwrap();
    assert_eq!((ep.host.as_str(), ep.port), ("h", 80));
    let parts = AddressParts { host: Some("h".to_string()), port: Some(8443) };
    let ep = endpoint_of("http://h:8443", Some(parts)).unwrap();
    assert_eq!((ep.host.as_str(), ep.port), ("h", 8443));
}

#[test]
fn test_window_size() {
    assert_eq!(window_size(0).unwrap(), 0);
    assert_eq!(window_size(DEFAULT_MAX_FRAME_SIZE).unwrap(), 4194304);
    assert_eq!(window_size(u32::MAX as usize).unwrap(), u32::MAX);
    if usize::BITS > 32 {
        assert_eq!(
            protocol_message(window_size(u32::MAX as usize + 1)),
            "Size conversion failed"
        );
    }
}

#[test]
fn test_frame_message() {
    assert_eq!(frame_message(b"").unwrap(), vec![0, 0, 0, 0, 0]);
    assert_eq!(
        frame_message(b"abc").unwrap(),
        vec![0, 0, 0, 0, 3, b'a', b'b', b'c']
    );
    let framed = frame_message(&vec![1u8; 0x0a0b0c]).unwrap();
    assert_eq!(&framed[..5], &[0, 0, 0x0a, 0x0b, 0x0c]);
    assert_eq!(framed.len(), 5 + 0x0a0b0c);
}

#[test]
fn test_response_message() {
    assert_eq!(protocol_message(response_message(None)), "No response received");
    assert_eq!(
        protocol_message(response_message(Some(&[0, 0, 0, 0]))),
        "Invalid response frame"
    );
    assert_eq!(
        protocol_message(response_message(Some(&[0, 0, 0, 0, 2, 1]))),
        "Incomplete response frame"
    );
    assert_eq!(response_message(Some(&[0, 0, 0, 0, 0])).unwrap(), b"");
    assert_eq!(
        response_message(Some(&[1, 0, 0, 0, 2, 8, 9, 10])).unwrap(),
        &[8, 9]
    );
}

#[test]
fn test_framed_message_reads_back() {
    let framed = frame_message(b"test request").unwrap();
    assert_eq!(response_message(Some(&framed)).unwrap(), b"test request");
}

#[test]
fn test_request_headers() {
    let fixed = vec![
        ("content-type".to_string(), b"application/grpc".to_vec()),
        ("te".to_string(), b"trailers".to_vec()),
    ];
    assert_eq!(request_headers(None), fixed);

    let mut metadata = Metadata::new();
    metadata.insert("custom-header", "test-value").unwrap();
    metadata.insert_bin("trace", Bytes::from("x")).unwrap();
    let headers = request_headers(Some(&metadata));
    assert_eq!(headers.len(), 3);
    assert_eq!(&headers[..2], &fixed[..]);
    assert_eq!(
        headers[2],
        ("custom-header".to_string(), b"test-value".to_vec())
    );
}

#[test]
fn test_connection_limits() {
    let conn = Connection::new(7u8);
    assert_eq!(conn.max_frame_size(), DEFAULT_MAX_FRAME_SIZE);
    let mut conn = conn.with_max_frame_size(4);
    assert_eq!(conn.max_frame_size(), 4);
    assert!(conn.check_outbound(&Bytes::from("1234")).is_ok());
    match conn.check_outbound(&Bytes::from("12345")) {
        Err(Error::MessageTooLarge(n)) => assert_eq!(n, 5),
        other => panic!("unexpected: {:?}", other),
    }
    *conn.transport_mut() = 9;
    assert_eq!(conn.into_transport(), 9);
}

#[test]
fn test_next_delivery() {
    assert_eq!(next_delivery(Some(Ok(5u8))).unwrap(), Some(5));
    assert_eq!(next_delivery::<u8>(None).unwrap(), None);
    assert!(matches!(
        next_delivery::<u8>(Some(Err(Error::ConnectionClosed))),
        Err(Error::ConnectionClosed)
    ));
}

#[test]
fn test_handshake_settings_follow_the_config() {
    let config = ClientConfig::default();
    let settings = config.handshake_settings().unwrap();
    assert_eq!(settings.connection_window_size, 4194304);
    assert_eq!(settings.stream_window_size, 4194304);
    assert_eq!(settings.max_concurrent_streams, 100);

    let config = ClientConfig {
        max_message_size: 16,
        max_concurrent_streams: 3,
        ..ClientConfig::default()
    };
    let settings = config.handshake_settings().unwrap();
    assert_eq!(settings.connection_window_size, 16);
    assert_eq!(settings.stream_window_size, 16);
    assert_eq!(settings.max_concurrent_streams, 3);
    let conn = config.connection_over(0u8);
    assert_eq!(conn.max_frame_size(), 16);
    assert!(matches!(
        conn.check_outbound(&Bytes::from(vec![0u8; 17])),
        Err(Error::MessageTooLarge(17))
    ));

    if usize::BITS > 32 {
        let config = ClientConfig {
            max_message_size: u32::MAX as usize + 1,
            ..ClientConfig::default()
        };
        assert_eq!(
            protocol_message(config.handshake_settings()),
            "Size conversion failed"
        );
    }
}
