use agon_link::messages::Message;
use agon_link::pump::{tx_frames, ConnectionState, LinkSession, PumpAction, Role};
use agon_link::session::is_supported_command;
use agon_link::uart::SocketState;

/// Carries messages as bytes, the way a stream transport does.
fn wire(msgs: &[Message]) -> Vec<Message> {
    let mut bytes = Vec::new();
    for m in msgs {
        m.write_to(&mut bytes).unwrap();
    }
    let mut reader = std::io::Cursor::new(bytes);
    let mut out = Vec::new();
    for _ in msgs {
        out.push(Message::read_from(&mut reader).unwrap());
    }
    out
}

struct Peer {
    session: LinkSession,
    shared: SocketState,
}

impl Peer {
    fn deliver(&mut self, msgs: Vec<Message>) -> Vec<PumpAction> {
        wire(&msgs)
            .into_iter()
            .map(|m| self.session.on_message(&mut self.shared, m).unwrap())
            .collect()
    }
}

fn handshake(emulator: &mut Peer, vdp: &mut Peer) {
    let hello = vdp.session.open().unwrap();
    let actions = emulator.deliver(vec![hello]);
    let ack = match &actions[..] {
        [PumpAction::Reply(m)] => m.clone(),
        other => panic!("unexpected {:?}", other),
    };
    assert!(matches!(&ack, Message::HelloAck { version: 1, .. }));
    assert_eq!(vdp.deliver(vec![ack]), vec![PumpAction::Idle]);
    assert_eq!(emulator.session.state, ConnectionState::Established);
    assert_eq!(vdp.session.state, ConnectionState::Established);
}

#[test]
fn boot_shake_uart_vsync_and_shutdown() {
    let mut emulator = Peer {
        session: LinkSession::new(Role::Listener, r#"{"type":"ez80","version":"1.0"}"#.to_string()),
        shared: SocketState::new(),
    };
    let mut vdp = Peer {
        session: LinkSession::new(Role::Connector, String::new()),
        shared: SocketState::new(),
    };
    handshake(&mut emulator, &mut vdp);

    // VDP to CPU
    emulator.deliver(vec![Message::UartData(vec![0x41, 0x42, 0x43])]);
    let rx: Vec<u8> = std::iter::from_fn(|| emulator.shared.recv()).collect();
    assert_eq!(rx, vec![0x41, 0x42, 0x43]);

    // CPU to VDP
    emulator.shared.send(0x31);
    emulator.shared.send(0x32);
    let frames = tx_frames(&mut emulator.shared);
    assert_eq!(frames, vec![Message::UartData(vec![0x31, 0x32])]);
    vdp.deliver(frames);
    let got: Vec<u8> = std::iter::from_fn(|| vdp.shared.recv()).collect();
    assert_eq!(got, vec![0x31, 0x32]);

    // one VSYNC, one pulse
    assert_eq!(emulator.deliver(vec![Message::Vsync]), vec![PumpAction::PulseVsync]);

    // the emulator ends the session; the VDP sees the shutdown
    let bye = emulator.session.close().unwrap();
    assert_eq!(vdp.deliver(vec![bye]), vec![PumpAction::Shutdown]);
    assert_eq!(vdp.session.close(), Some(Message::Shutdown));
    assert_eq!(vdp.session.state, ConnectionState::Closed);
}

#[test]
fn reconnect_delivers_bytes_from_the_gap_in_order() {
    let mut shared = SocketState::new();
    let gap: Vec<u8> = (0..700u32).map(|i| (i * 7) as u8).collect();
    for b in &gap {
        shared.send(*b);
    }
    let mut emulator = Peer {
        session: LinkSession::new(Role::Listener, "{}".to_string()),
        shared,
    };
    let mut vdp = Peer {
        session: LinkSession::new(Role::Connector, String::new()),
        shared: SocketState::new(),
    };
    handshake(&mut emulator, &mut vdp);
    let frames = tx_frames(&mut emulator.shared);
    assert_eq!(frames.len(), 1);
    assert_eq!(frames[0], Message::UartData(gap));
}

#[test]
fn supported_commands() {
    for id in [1u8, 2, 3, 4, 6, 7, 8, 9, 15, 20, 40, 41, 44] {
        assert!(is_supported_command(id), "{}", id);
    }
    for id in [0u8, 5, 10, 13, 21, 42, 43, 45, 200] {
        assert!(!is_supported_command(id), "{}", id);
    }
}
