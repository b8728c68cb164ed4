use agon_link::address::{SocketAddr, DEFAULT_SOCKET_PATH};
use agon_link::config::{FrameSpec, FrameSpecEntry, Verbosity};
use agon_link::hex::fmt_hex;
use agon_link::messages::{Message, ProtocolError, PROTOCOL_VERSION};
use agon_link::pump::{
    advance_deadline, interval_elapsed, tx_frames, ConnectionState, LinkSession, PumpAction, Role,
    VSYNC_INTERVAL_US,
};
use agon_link::uart::{DummySerialLink, SocketState};

fn established_listener() -> LinkSession {
    let mut s = LinkSession::new(Role::Listener, r#"{"type":"ez80","version":"1.0"}"#.to_string());
    let mut shared = SocketState::new();
    s.on_message(&mut shared, Message::Hello { version: 1, flags: 0 }).unwrap();
    s
}

#[test]
fn shared_state_starts_empty_and_ready() {
    let mut s = SocketState::new();
    assert!(s.read_clear_to_send());
    assert_eq!(s.recv(), None);
    assert!(s.drain_tx().is_empty());
}

#[test]
fn tx_fifo_through_frames() {
    let mut s = SocketState::new();
    let bytes: Vec<u8> = (0..3000u32).map(|i| (i % 251) as u8).collect();
    for b in &bytes {
        s.send(*b);
    }
    let frames = tx_frames(&mut s);
    assert_eq!(frames.len(), 3);
    assert_eq!(frames[0], Message::UartData(bytes[..1024].to_vec()));
    assert_eq!(frames[1], Message::UartData(bytes[1024..2048].to_vec()));
    assert_eq!(frames[2], Message::UartData(bytes[2048..].to_vec()));
    let mut received = Vec::new();
    for f in &frames {
        let (m, _) = Message::decode(&f.encode()).unwrap();
        match m {
            Message::UartData(d) => {
                assert!(!d.is_empty() && d.len() <= 1024);
                received.extend(d);
            }
            other => panic!("unexpected {:?}", other),
        }
    }
    assert_eq!(received, bytes);
    assert!(s.drain_tx().is_empty());
    assert!(tx_frames(&mut s).is_empty());
}

#[test]
fn cts_backpressure() {
    let mut s = SocketState::new();
    s.set_cts(false);
    assert!(!s.read_clear_to_send());
    assert!(!s.try_send(0x41));
    assert!(!s.try_send(0x42));
    assert!(tx_frames(&mut s).is_empty());
    s.set_cts(true);
    assert!(s.try_send(0x43));
    assert_eq!(tx_frames(&mut s), vec![Message::UartData(vec![0x43])]);
}

#[test]
fn queued_bytes_survive_reconnect() {
    let mut shared = SocketState::new();
    for b in 0..1500u32 {
        shared.send(b as u8);
    }
    let mut first = LinkSession::new(Role::Listener, String::new());
    assert!(first.on_message(&mut shared, Message::Vsync).is_err());
    assert_eq!(first.close(), None);
    let mut second = LinkSession::new(Role::Listener, "{}".to_string());
    let reply = second.on_message(&mut shared, Message::Hello { version: 1, flags: 0 }).unwrap();
    assert!(matches!(reply, PumpAction::Reply(Message::HelloAck { .. })));
    let frames = tx_frames(&mut shared);
    assert_eq!(frames.len(), 2);
    let mut got = Vec::new();
    for f in frames {
        if let Message::UartData(d) = f {
            got.extend(d);
        }
    }
    assert_eq!(got, (0..1500u32).map(|b| b as u8).collect::<Vec<u8>>());
}

#[test]
fn listener_handshake() {
    let mut shared = SocketState::new();
    let mut s = LinkSession::new(Role::Listener, r#"{"type":"ez80","version":"1.0"}"#.to_string());
    assert_eq!(s.open(), None);
    let action = s.on_message(&mut shared, Message::Hello { version: 1, flags: 0 }).unwrap();
    assert_eq!(
        action,
        PumpAction::Reply(Message::HelloAck {
            version: PROTOCOL_VERSION,
            capabilities: r#"{"type":"ez80","version":"1.0"}"#.to_string(),
        })
    );
    assert_eq!(s.state, ConnectionState::Established);
}

#[test]
fn connector_handshake() {
    let mut shared = SocketState::new();
    let mut s = LinkSession::new(Role::Connector, String::new());
    assert_eq!(s.open(), Some(Message::Hello { version: 1, flags: 0 }));
    assert_eq!(s.state, ConnectionState::HandshakeSent);
    let ack = Message::HelloAck { version: 1, capabilities: "{}".to_string() };
    assert_eq!(s.on_message(&mut shared, ack).unwrap(), PumpAction::Idle);
    assert_eq!(s.state, ConnectionState::Established);
}

#[test]
fn handshake_violation_closes() {
    let mut shared = SocketState::new();
    let mut s = LinkSession::new(Role::Connector, String::new());
    s.open();
    let r = s.on_message(&mut shared, Message::Vsync);
    assert!(matches!(r, Err(ProtocolError::InvalidFormat(_))));
    assert_eq!(s.state, ConnectionState::Closed);
    assert_eq!(s.close(), None);
}

#[test]
fn uart_round_trip_into_rx_queue() {
    let mut shared = SocketState::new();
    let mut s = established_listener();
    let a = s.on_message(&mut shared, Message::UartData(vec![0x41, 0x42, 0x43])).unwrap();
    assert_eq!(a, PumpAction::Idle);
    assert_eq!(shared.recv(), Some(0x41));
    assert_eq!(shared.recv(), Some(0x42));
    assert_eq!(shared.recv(), Some(0x43));
    assert_eq!(shared.recv(), None);
    shared.send(0x31);
    shared.send(0x32);
    assert_eq!(tx_frames(&mut shared), vec![Message::UartData(vec![0x31, 0x32])]);
}

#[test]
fn vsync_cts_shutdown_dispatch() {
    let mut shared = SocketState::new();
    let mut s = established_listener();
    assert_eq!(s.on_message(&mut shared, Message::Vsync).unwrap(), PumpAction::PulseVsync);
    assert_eq!(s.on_message(&mut shared, Message::Cts(false)).unwrap(), PumpAction::Idle);
    assert!(!shared.cts);
    assert_eq!(
        s.on_message(&mut shared, Message::Hello { version: 1, flags: 0 }).unwrap(),
        PumpAction::Unexpected
    );
    assert_eq!(s.on_message(&mut shared, Message::Shutdown).unwrap(), PumpAction::Shutdown);
    assert_eq!(s.state, ConnectionState::ShuttingDown);
    assert_eq!(s.close(), Some(Message::Shutdown));
    assert_eq!(s.state, ConnectionState::Closed);
}

#[test]
fn vsync_cadence_over_ten_seconds() {
    let mut last: u64 = 0;
    let mut sent = 0u32;
    let mut now: u64 = 0;
    while now < 10_000_000 {
        now += 1000;
        if interval_elapsed(now, last, VSYNC_INTERVAL_US) {
            sent += 1;
            last = advance_deadline(last, VSYNC_INTERVAL_US, now);
        }
    }
    assert!((590..=610).contains(&sent), "sent {}", sent);
}

#[test]
fn deadlines_catch_up_or_restart() {
    assert_eq!(advance_deadline(1000, 100, 1150), 1100);
    assert_eq!(advance_deadline(1000, 100, 1200), 1100);
    assert_eq!(advance_deadline(1000, 100, 1201), 1201);
    assert_eq!(advance_deadline(u64::MAX - 5, 100, 7), 7);
    assert!(interval_elapsed(200, 100, 100));
    assert!(!interval_elapsed(199, 100, 100));
    assert!(!interval_elapsed(50, 100, 10));
}

#[test]
fn dummy_link() {
    let mut d = DummySerialLink;
    d.send(1);
    assert_eq!(d.recv(), None);
    assert!(d.read_clear_to_send());
}

#[test]
fn socket_addresses() {
    let a = SocketAddr::unix(DEFAULT_SOCKET_PATH);
    assert!(matches!(&a, SocketAddr::Unix(p) if p == "/tmp/agon-vdp.sock"));
    assert_eq!(a.as_str(), "/tmp/agon-vdp.sock");
    let t = SocketAddr::tcp("0.0.0.0:5000");
    assert!(matches!(&t, SocketAddr::Tcp(p) if p == "0.0.0.0:5000"));
}

#[test]
fn hex_dump() {
    assert_eq!(fmt_hex(&[0x41, 0x0F, 0xA0]), "41 0F A0");
    assert_eq!(fmt_hex(&[]), "");
    assert_eq!(fmt_hex(&[0xFF]), "FF");
}

#[test]
fn verbosity_levels() {
    assert_eq!(Verbosity::default(), Verbosity::Quiet);
    assert!(Verbosity::Trace.at_least(Verbosity::Verbose));
    assert!(!Verbosity::Quiet.at_least(Verbosity::Verbose));
    assert_eq!(Verbosity::TraceUart.level(), 3);
}

#[test]
fn frame_selection() {
    let all = FrameSpec::all();
    assert!(all.includes(0) && all.includes(12345));
    let some = FrameSpec {
        entries: vec![FrameSpecEntry::Single(3), FrameSpecEntry::Range(600, 800)],
    };
    assert!(some.includes(3));
    assert!(some.includes(600) && some.includes(800) && some.includes(700));
    assert!(!some.includes(4) && !some.includes(801) && !some.includes(599));
}

#[test]
fn frame_spec_parse() {
    let f = FrameSpec::parse("1,2,3,500,600..800").unwrap();
    assert_eq!(
        f.entries,
        vec![
            FrameSpecEntry::Single(1),
            FrameSpecEntry::Single(2),
            FrameSpecEntry::Single(3),
            FrameSpecEntry::Single(500),
            FrameSpecEntry::Range(600, 800),
        ]
    );
    let f = FrameSpec::parse(" 5 , 7 .. 9 ,, ").unwrap();
    assert_eq!(f.entries, vec![FrameSpecEntry::Single(5), FrameSpecEntry::Range(7, 9)]);
    assert!(FrameSpec::parse("").unwrap().entries.is_empty());
    assert!(FrameSpec::parse("   ").unwrap().entries.is_empty());
    assert_eq!(FrameSpec::parse("+4").unwrap().entries, vec![FrameSpecEntry::Single(4)]);
    assert_eq!(
        FrameSpec::parse("18446744073709551615").unwrap().entries,
        vec![FrameSpecEntry::Single(u64::MAX)]
    );
}

#[test]
fn frame_spec_parse_errors() {
    assert!(FrameSpec::parse("abc").is_err());
    assert!(FrameSpec::parse("5..3").is_err());
    assert!(FrameSpec::parse("1..x").is_err());
    assert!(FrameSpec::parse("x..1").is_err());
    assert!(FrameSpec::parse("1,-2").is_err());
    assert!(FrameSpec::parse("18446744073709551616").is_err());
    assert!(FrameSpec::parse("1...3").is_err());
}
