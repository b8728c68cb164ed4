use agon_link::messages::{Message, ProtocolError, MAX_UART_DATA_SIZE, PROTOCOL_VERSION};

#[test]
fn test_encode_decode_uart_data() {
    let msg = Message::UartData(vec![0x41, 0x42, 0x43]);
    let encoded = msg.encode();
    let (decoded, len) = Message::decode(&encoded).unwrap();
    assert_eq!(decoded, msg);
    assert_eq!(len, encoded.len());
}

#[test]
fn test_encode_decode_vsync() {
    let msg = Message::Vsync;
    let encoded = msg.encode();
    let (decoded, _) = Message::decode(&encoded).unwrap();
    assert_eq!(decoded, msg);
}

#[test]
fn test_encode_decode_cts() {
    for ready in [true, false] {
        let msg = Message::Cts(ready);
        let encoded = msg.encode();
        let (decoded, _) = Message::decode(&encoded).unwrap();
        assert_eq!(decoded, msg);
    }
}

#[test]
fn test_encode_decode_hello() {
    let msg = Message::Hello { version: 1, flags: 0 };
    let encoded = msg.encode();
    let (decoded, _) = Message::decode(&encoded).unwrap();
    assert_eq!(decoded, msg);
}

#[test]
fn test_encode_decode_hello_ack() {
    let msg = Message::HelloAck {
        version: 1,
        capabilities: r#"{"type":"cli","cols":80}"#.to_string(),
    };
    let encoded = msg.encode();
    let (decoded, _) = Message::decode(&encoded).unwrap();
    assert_eq!(decoded, msg);
}

#[test]
fn test_encode_decode_shutdown() {
    let msg = Message::Shutdown;
    let encoded = msg.encode();
    let (decoded, _) = Message::decode(&encoded).unwrap();
    assert_eq!(decoded, msg);
}

#[test]
fn test_wire_format() {
    let msg = Message::UartData(vec![0x41]);
    let encoded = msg.encode();
    assert_eq!(encoded, vec![0x02, 0x00, 0x01, 0x41]);
}

#[test]
fn encode_layouts_of_each_type() {
    assert_eq!(Message::Vsync.encode(), vec![0x01, 0x00, 0x02]);
    assert_eq!(Message::Cts(true).encode(), vec![0x02, 0x00, 0x03, 0x01]);
    assert_eq!(Message::Cts(false).encode(), vec![0x02, 0x00, 0x03, 0x00]);
    assert_eq!(
        Message::Hello { version: 1, flags: 7 }.encode(),
        vec![0x03, 0x00, 0x10, 0x01, 0x07]
    );
    assert_eq!(
        Message::HelloAck { version: 1, capabilities: "ab".to_string() }.encode(),
        vec![0x04, 0x00, 0x11, 0x01, b'a', b'b']
    );
    assert_eq!(Message::Shutdown.encode(), vec![0x01, 0x00, 0x20]);
}

#[test]
fn round_trip_non_ascii_capabilities() {
    let msg = Message::HelloAck { version: 1, capabilities: "écran ✓".to_string() };
    let encoded = msg.encode();
    let (decoded, n) = Message::decode(&encoded).unwrap();
    assert_eq!(decoded, msg);
    assert_eq!(n, encoded.len());
}

#[test]
fn envelope_is_three_bytes_longer_than_uart_data() {
    for n in [0usize, 1, 17, MAX_UART_DATA_SIZE] {
        let data: Vec<u8> = (0..n).map(|i| i as u8).collect();
        let encoded = Message::UartData(data.clone()).encode();
        assert_eq!(encoded.len(), 3 + n);
        let (decoded, used) = Message::decode(&encoded).unwrap();
        assert_eq!(decoded, Message::UartData(data));
        assert_eq!(used, 3 + n);
    }
}

#[test]
fn decode_stated_length_too_large() {
    // 1026 = 0x0402 is one more than the largest frame
    let data = vec![0x02, 0x04, 0x01, 0x00];
    match Message::decode(&data) {
        Err(ProtocolError::PayloadTooLarge(n)) => assert_eq!(n, 1026),
        other => panic!("unexpected {:?}", other),
    }
    // the largest frame itself is only incomplete here
    let data = vec![0x01, 0x04, 0x01, 0x00];
    assert!(matches!(Message::decode(&data), Err(ProtocolError::InvalidFormat(_))));
}

#[test]
fn decode_errors() {
    assert!(matches!(Message::decode(&[0x01, 0x00]), Err(ProtocolError::InvalidFormat(_))));
    assert!(matches!(Message::decode(&[0x00, 0x00, 0x02]), Err(ProtocolError::InvalidFormat(_))));
    assert!(matches!(
        Message::decode(&[0x03, 0x00, 0x01, 0x41]),
        Err(ProtocolError::InvalidFormat(_))
    ));
    assert!(matches!(
        Message::decode(&[0x01, 0x00, 0x7F]),
        Err(ProtocolError::UnknownMessageType(0x7F))
    ));
    assert!(matches!(Message::decode(&[0x01, 0x00, 0x03]), Err(ProtocolError::InvalidFormat(_))));
    assert!(matches!(
        Message::decode(&[0x02, 0x00, 0x10, 0x01]),
        Err(ProtocolError::InvalidFormat(_))
    ));
    assert!(matches!(Message::decode(&[0x01, 0x00, 0x11]), Err(ProtocolError::InvalidFormat(_))));
}

#[test]
fn decode_cts_nonzero_is_ready() {
    let (m, n) = Message::decode(&[0x02, 0x00, 0x03, 0x05]).unwrap();
    assert_eq!(m, Message::Cts(true));
    assert_eq!(n, 4);
}

#[test]
fn decode_invalid_utf8_capabilities_is_lossy() {
    let (m, _) = Message::decode(&[0x04, 0x00, 0x11, 0x01, b'a', 0xFF]).unwrap();
    assert_eq!(m, Message::HelloAck { version: 1, capabilities: "a\u{FFFD}".to_string() });
}

#[test]
fn three_frames_back_to_back() {
    let msgs = vec![
        Message::Hello { version: PROTOCOL_VERSION, flags: 0 },
        Message::UartData(vec![1, 2, 3]),
        Message::Shutdown,
    ];
    let mut stream = Vec::new();
    for m in &msgs {
        stream.extend(m.encode());
    }
    let mut pos = 0;
    let mut out = Vec::new();
    while pos < stream.len() {
        let (m, n) = Message::decode(&stream[pos..]).unwrap();
        out.push(m);
        pos += n;
    }
    assert_eq!(out, msgs);
    assert_eq!(pos, stream.len());
}

#[test]
fn read_and_write_through_io() {
    let mut buf: Vec<u8> = Vec::new();
    Message::UartData(vec![9, 8]).write_to(&mut buf).unwrap();
    Message::Vsync.write_to(&mut buf).unwrap();
    let mut reader = std::io::Cursor::new(buf);
    assert_eq!(Message::read_from(&mut reader).unwrap(), Message::UartData(vec![9, 8]));
    assert_eq!(Message::read_from(&mut reader).unwrap(), Message::Vsync);
    assert!(matches!(Message::read_from(&mut reader), Err(ProtocolError::ConnectionClosed)));
}

#[test]
fn read_refuses_oversized_frame() {
    let mut reader = std::io::Cursor::new(vec![0xFF, 0xFF, 0x01]);
    assert!(matches!(
        Message::read_from(&mut reader),
        Err(ProtocolError::PayloadTooLarge(0xFFFF))
    ));
    let mut reader = std::io::Cursor::new(vec![0x00, 0x00]);
    assert!(matches!(Message::read_from(&mut reader), Err(ProtocolError::InvalidFormat(_))));
}

#[test]
fn three_frames_read_from_a_stream() {
    let msgs = vec![
        Message::Cts(false),
        Message::UartData(vec![0x10; 1024]),
        Message::HelloAck { version: 1, capabilities: "{}".to_string() },
    ];
    let mut buf = Vec::new();
    for m in &msgs {
        buf.extend(m.encode());
    }
    let total = buf.len() as u64;
    let mut reader = std::io::Cursor::new(buf);
    for m in &msgs {
        assert_eq!(&Message::read_from(&mut reader).unwrap(), m);
    }
    assert_eq!(reader.position(), total);
    assert!(matches!(Message::read_from(&mut reader), Err(ProtocolError::ConnectionClosed)));
}
