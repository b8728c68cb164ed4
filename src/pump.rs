//! Decisions of the session pump between the eZ80 and the VDP.
//!
//! A `LinkSession` tracks one peer attachment from the handshake to its end.
//! The caller owns the transport and the clock: it hands each received
//! message to `on_message` and performs the action that comes back, drains
//! transmit bytes into frames with `tx_frames`, and keeps the VSYNC schedule
//! with `interval_elapsed` and `advance_deadline`.

use vstd::prelude::*;

use crate::messages::{
    decode_view, fits_frame, frame_bytes, lemma_round_trip, ErrorView, Message, MessageView,
    ProtocolError, MAX_UART_DATA_SIZE, PROTOCOL_VERSION,
};
use crate::uart::SocketState;

verus! {

/// Smallest gap between two transmit batches, in microseconds.
pub const TX_INTERVAL_US: u64 = 100;

/// Period of VSYNC messages from the VDP side, in microseconds (about 60 Hz).
pub const VSYNC_INTERVAL_US: u64 = 16666;

/// Which side of the connection this process is.
#[derive(Debug, Clone, Copy, PartialEq, Eq, Structural)]
pub enum Role {
    /// Accepted the connection; waits for `Hello` and answers `HelloAck`.
    Listener,
    /// Opened the connection; sends `Hello` and waits for `HelloAck`.
    Connector,
}

/// Where a peer attachment stands.
#[derive(Debug, Clone, Copy, PartialEq, Eq, Structural)]
pub enum ConnectionState {
    Initial,
    HandshakeSent,
    Established,
    ShuttingDown,
    Closed,
}

/// What the caller does after a message from the peer.
#[derive(Debug, Clone, PartialEq)]
pub enum PumpAction {
    /// Nothing more.
    Idle,
    /// Send this message to the peer.
    Reply(Message),
    /// Pulse the VSYNC input pin once (low, high, low).
    PulseVsync,
    /// The peer asked to end the session.
    Shutdown,
    /// A message that has no place here; it is dropped.
    Unexpected,
}

/// One peer attachment.
#[derive(Debug, Clone)]
pub struct LinkSession {
    pub role: Role,
    pub state: ConnectionState,
    /// Capabilities a listener announces in its `HelloAck`.
    pub capabilities: String,
}

/// The bytes that a frame carries to the UART: its data for `UartData`,
/// nothing for the others.
pub open spec fn uart_bytes(m: MessageView) -> Seq<u8> {
    match m {
        MessageView::UartData(d) => d,
        _ => Seq::empty(),
    }
}

/// The UART bytes of a series of frames, in order.
pub open spec fn frames_bytes(frames: Seq<Message>) -> Seq<u8>
    decreases frames.len(),
{
    if frames.len() == 0 {
        Seq::empty()
    } else {
        frames_bytes(frames.drop_last()) + uart_bytes(frames.last()@)
    }
}

/// Every frame is a `UartData` carrying between one and the largest number
/// of bytes a frame may hold.
pub open spec fn all_uart_frames(frames: Seq<Message>) -> bool {
    forall|i: int|
        0 <= i < frames.len() ==> (#[trigger] frames[i]@ matches MessageView::UartData(d) && 1
            <= d.len() <= MAX_UART_DATA_SIZE)
}

/// The bytes of frame `i` when queued bytes `q` are cut into full frames:
/// `q[1024 * i .. min(1024 * (i + 1), |q|)]`.
pub open spec fn frame_chunk(q: Seq<u8>, i: int) -> Seq<u8> {
    let end = if 1024 * i + 1024 <= q.len() {
        1024 * i + 1024
    } else {
        q.len() as int
    };
    q.subrange(1024 * i, end)
}

/// The number of frames that `n` bytes fill.
pub open spec fn frame_count(n: nat) -> nat {
    ((n + 1023) / 1024) as nat
}

impl LinkSession {
    /// A fresh attachment, before the handshake.
    pub fn new(role: Role, capabilities: String) -> (s: Self)
        ensures
            s.role == role,
            s.state == ConnectionState::Initial,
            s.capabilities@ == capabilities@,
    {
        LinkSession { role, state: ConnectionState::Initial, capabilities }
    }

    /// Opens the handshake: a connector sends `Hello` and then waits for the
    /// answer; a listener sends nothing and waits for `Hello`.
    pub fn open(&mut self) -> (r: Option<Message>)
        ensures
            final(self).role == old(self).role,
            final(self).capabilities == old(self).capabilities,
            if old(self).role == Role::Connector && old(self).state == ConnectionState::Initial {
                &&& r matches Some(m) && m@ == (MessageView::Hello { version: PROTOCOL_VERSION, flags: 0 })
                &&& final(self).state == ConnectionState::HandshakeSent
            } else {
                &&& r is None
                &&& final(self).state == old(self).state
            },
    {
        if self.role == Role::Connector && self.state == ConnectionState::Initial {
            self.state = ConnectionState::HandshakeSent;
            Some(Message::Hello { version: PROTOCOL_VERSION, flags: 0 })
        } else {
            None
        }
    }

    /// Handles one message from the peer.
    ///
    /// During the handshake the expected first message (`Hello` for a
    /// listener, `HelloAck` for a connector) establishes the session, and
    /// anything else ends it with `InvalidFormat`. Once established, UART
    /// data goes to the receive queue in order, `Cts` sets the flag, `Vsync`
    /// asks for a pulse and `Shutdown` starts the end of the session; other
    /// messages are dropped.
    pub fn on_message(&mut self, shared: &mut SocketState, msg: Message) -> (r: Result<
        PumpAction,
        ProtocolError,
    >)
        ensures
            final(self).role == old(self).role,
            final(self).capabilities == old(self).capabilities,
            final(shared).tx_queue@ == old(shared).tx_queue@,
            final(shared).rx_queue@ == old(shared).rx_queue@ + if old(self).state
                == ConnectionState::Established {
                uart_bytes(msg@)
            } else {
                Seq::empty()
            },
            final(shared).cts == if old(self).state == ConnectionState::Established
                && msg@ is Cts {
                msg@->Cts_0
            } else {
                old(shared).cts
            },
            ({
                let listening = old(self).role == Role::Listener && old(self).state
                    == ConnectionState::Initial;
                let awaiting_ack = old(self).role == Role::Connector && old(self).state
                    == ConnectionState::HandshakeSent;
                if listening {
                    if msg@ is Hello {
                        &&& r matches Ok(PumpAction::Reply(m)) && m@ == (MessageView::HelloAck {
                            version: PROTOCOL_VERSION,
                            capabilities: old(self).capabilities@,
                        })
                        &&& final(self).state == ConnectionState::Established
                    } else {
                        &&& r matches Err(e) && e@ == ErrorView::InvalidFormat
                        &&& final(self).state == ConnectionState::Closed
                    }
                } else if awaiting_ack {
                    if msg@ is HelloAck {
                        &&& r matches Ok(PumpAction::Idle)
                        &&& final(self).state == ConnectionState::Established
                    } else {
                        &&& r matches Err(e) && e@ == ErrorView::InvalidFormat
                        &&& final(self).state == ConnectionState::Closed
                    }
                } else if old(self).state == ConnectionState::Established {
                    match msg@ {
                        MessageView::UartData(_) => r matches Ok(PumpAction::Idle)
                            && final(self).state == ConnectionState::Established,
                        MessageView::Cts(_) => r matches Ok(PumpAction::Idle)
                            && final(self).state == ConnectionState::Established,
                        MessageView::Vsync => r matches Ok(PumpAction::PulseVsync)
                            && final(self).state == ConnectionState::Established,
                        MessageView::Shutdown => r matches Ok(PumpAction::Shutdown)
                            && final(self).state == ConnectionState::ShuttingDown,
                        _ => r matches Ok(PumpAction::Unexpected) && final(self).state
                            == ConnectionState::Established,
                    }
                } else {
                    r matches Ok(PumpAction::Unexpected) && final(self).state == old(self).state
                }
            }),
    {
        if self.role == Role::Listener && self.state == ConnectionState::Initial {
            match msg {
                Message::Hello { .. } => {
                    self.state = ConnectionState::Established;
                    let caps = self.capabilities.clone();
                    Ok(PumpAction::Reply(Message::HelloAck { version: PROTOCOL_VERSION, capabilities: caps }))
                },
                _ => {
                    self.state = ConnectionState::Closed;
                    Err(ProtocolError::InvalidFormat("Expected HELLO from peer".to_string()))
                },
            }
        } else if self.role == Role::Connector && self.state == ConnectionState::HandshakeSent {
            match msg {
                Message::HelloAck { .. } => {
                    self.state = ConnectionState::Established;
                    Ok(PumpAction::Idle)
                },
                _ => {
                    self.state = ConnectionState::Closed;
                    Err(ProtocolError::InvalidFormat("Expected HELLO_ACK from peer".to_string()))
                },
            }
        } else if self.state == ConnectionState::Established {
            match msg {
                Message::UartData(data) => {
                    shared.queue_rx(data.as_slice());
                    Ok(PumpAction::Idle)
                },
                Message::Vsync => Ok(PumpAction::PulseVsync),
                Message::Cts(ready) => {
                    shared.set_cts(ready);
                    Ok(PumpAction::Idle)
                },
                Message::Shutdown => {
                    self.state = ConnectionState::ShuttingDown;
                    Ok(PumpAction::Shutdown)
                },
                _ => Ok(PumpAction::Unexpected),
            }
        } else {
            Ok(PumpAction::Unexpected)
        }
    }

    /// Ends the attachment. A session that got past the handshake sends a
    /// best-effort `Shutdown` to the peer; one that did not sends nothing.
    pub fn close(&mut self) -> (r: Option<Message>)
        ensures
            final(self).state == ConnectionState::Closed,
            final(self).role == old(self).role,
            final(self).capabilities == old(self).capabilities,
            (old(self).state == ConnectionState::Established || old(self).state
                == ConnectionState::ShuttingDown) ==> (r matches Some(m) && m@ is Shutdown),
            !(old(self).state == ConnectionState::Established || old(self).state
                == ConnectionState::ShuttingDown) ==> r is None,
    {
        let was_open = self.state == ConnectionState::Established || self.state
            == ConnectionState::ShuttingDown;
        self.state = ConnectionState::Closed;
        if was_open {
            Some(Message::Shutdown)
        } else {
            None
        }
    }
}

/// Drains every queued transmit byte into `UartData` frames of at most the
/// largest frame size, keeping their order; no frame is made for an empty
/// queue.
pub fn tx_frames(shared: &mut SocketState) -> (frames: Vec<Message>)
    ensures
        frames_bytes(frames@) == old(shared).tx_queue@,
        all_uart_frames(frames@),
        frames@.len() == frame_count(old(shared).tx_queue@.len()),
        forall|i: int|
            0 <= i < frames@.len() ==> #[trigger] frames@[i]@ == MessageView::UartData(
                frame_chunk(old(shared).tx_queue@, i),
            ),
        final(shared).tx_queue@ == Seq::<u8>::empty(),
        final(shared).rx_queue@ == old(shared).rx_queue@,
        final(shared).cts == old(shared).cts,
{
    let bytes = shared.drain_tx();
    let n = bytes.len();
    let mut frames: Vec<Message> = Vec::new();
    let mut start: usize = 0;
    while start < n
        invariant
            n == bytes@.len(),
            start <= n,
            start % MAX_UART_DATA_SIZE == 0 || start == n,
            start < n ==> start == 1024 * frames@.len(),
            forall|i: int|
                0 <= i < frames@.len() ==> #[trigger] frames@[i]@ == MessageView::UartData(
                    frame_chunk(bytes@, i),
                ),
            frames_bytes(frames@) == bytes@.subrange(0, start as int),
            all_uart_frames(frames@),
            frames@.len() == frame_count(start as nat),
        decreases n - start,
    {
        let end: usize = if n - start > MAX_UART_DATA_SIZE {
            start + MAX_UART_DATA_SIZE
        } else {
            n
        };
        let chunk = crate::bytes::copy_range(bytes.as_slice(), start, end);
        let ghost before = frames@;
        frames.push(Message::UartData(chunk));
        proof {
            assert(frames@.drop_last() =~= before);
            assert(chunk@ =~= frame_chunk(bytes@, before.len() as int));
            assert forall|i: int| 0 <= i < frames@.len() implies #[trigger] frames@[i]@
                == MessageView::UartData(frame_chunk(bytes@, i)) by {
                if i < before.len() {
                    assert(frames@[i] == before[i]);
                }
            }
            assert(bytes@.subrange(0, end as int) =~= bytes@.subrange(0, start as int)
                + bytes@.subrange(start as int, end as int));
            assert(all_uart_frames(frames@)) by {
                assert forall|i: int| 0 <= i < frames@.len() implies (#[trigger] frames@[i]@ matches MessageView::UartData(d)
                    && 1 <= d.len() <= MAX_UART_DATA_SIZE) by {
                    if i < before.len() {
                        assert(frames@[i] == before[i]);
                    }
                }
            }
            assert(frame_count(end as nat) == frame_count(start as nat) + 1) by (nonlinear_arith)
                requires
                    start % 1024 == 0,
                    start < end,
                    end <= start + 1024,
                    MAX_UART_DATA_SIZE == 1024,
            ;
        }
        start = end;
    }
    assert(bytes@.subrange(0, n as int) =~= bytes@);
    frames
}

/// FIFO: frames made from queued transmit bytes each fit one frame and
/// decode on the peer side to themselves, so the UART bytes the peer gets,
/// frame after frame, are the queued bytes in their order.
pub proof fn lemma_tx_fifo(queued: Seq<u8>, frames: Seq<Message>)
    requires
        all_uart_frames(frames),
        frames_bytes(frames) == queued,
    ensures
        forall|i: int|
            0 <= i < frames.len() ==> fits_frame(#[trigger] frames[i]@) && decode_view(
                frame_bytes(frames[i]@),
            ) == Ok::<(MessageView, nat), ErrorView>((frames[i]@, frame_bytes(frames[i]@).len())),
        frames_bytes(frames) == queued,
{
    assert forall|i: int| 0 <= i < frames.len() implies fits_frame(#[trigger] frames[i]@)
        && decode_view(frame_bytes(frames[i]@)) == Ok::<(MessageView, nat), ErrorView>(
        (frames[i]@, frame_bytes(frames[i]@).len()),
    ) by {
        lemma_round_trip(frames[i]@);
    }
}

/// Reconnection: bytes queued while no peer is attached stay queued (a new
/// attachment starts from the shared state as it is), and when there are at
/// most two frames' worth of them, the first drain after the handshake
/// delivers them all, in order, in one or two frames, the first of which
/// holds the first `min(n, 1024)` of them.
pub proof fn lemma_reconnect_delivery(queued: Seq<u8>, frames: Seq<Message>)
    requires
        1 <= queued.len() <= 2 * MAX_UART_DATA_SIZE,
        frames_bytes(frames) == queued,
        frames.len() == frame_count(queued.len()),
        forall|i: int|
            0 <= i < frames.len() ==> #[trigger] frames[i]@ == MessageView::UartData(
                frame_chunk(queued, i),
            ),
    ensures
        1 <= frames.len() <= 2,
        frames_bytes(frames) == queued,
        frames[0]@ == MessageView::UartData(
            queued.subrange(
                0,
                if queued.len() <= MAX_UART_DATA_SIZE {
                    queued.len() as int
                } else {
                    MAX_UART_DATA_SIZE as int
                },
            ),
        ),
{
    assert(frames[0]@ == MessageView::UartData(frame_chunk(queued, 0)));
}

/// Whether `interval` microseconds have passed since `last` at time `now`.
pub open spec fn elapsed_spec(now: u64, last: u64, interval: u64) -> bool {
    now >= last && now - last >= interval
}

/// The next deadline of a periodic event, as `advance_deadline` computes it.
pub open spec fn advance_spec(last: u64, interval: u64, now: u64) -> u64 {
    if last + interval > u64::MAX || now > last + 2 * interval {
        now
    } else {
        (last + interval) as u64
    }
}

/// Whether `interval` microseconds have passed since `last`, on a clock that
/// reads `now`.
pub fn interval_elapsed(now: u64, last: u64, interval: u64) -> (r: bool)
    ensures
        r == elapsed_spec(now, last, interval),
{
    now >= last && now - last >= interval
}

/// The deadline after `last` for a periodic event: one interval later, so
/// that missed deadlines are made up rather than slipping, unless the clock
/// has already run more than one interval past that, in which case the
/// schedule restarts at `now`.
pub fn advance_deadline(last: u64, interval: u64, now: u64) -> (r: u64)
    ensures
        r == advance_spec(last, interval, now),
{
    if interval > u64::MAX - last {
        return now;
    }
    let next = last + interval;
    if now > next && now - next > interval {
        now
    } else {
        next
    }
}

/// The number of VSYNC messages sent when the pump looks at the clock at the
/// times `polls`, with the schedule's last deadline at `last`: at each look
/// one is sent if an interval has passed, and the deadline advances.
pub open spec fn vsyncs_sent(polls: Seq<u64>, interval: u64, last: u64) -> nat
    decreases polls.len(),
{
    if polls.len() == 0 {
        0
    } else if elapsed_spec(polls[0], last, interval) {
        1 + vsyncs_sent(polls.drop_first(), interval, advance_spec(last, interval, polls[0]))
    } else {
        vsyncs_sent(polls.drop_first(), interval, last)
    }
}

/// Looks at the clock that are in order and never more than `gap` apart,
/// starting from `start`.
pub open spec fn steady_polls(polls: Seq<u64>, start: u64, gap: u64) -> bool {
    &&& forall|i: int| 0 <= i < polls.len() ==> start <= #[trigger] polls[i]
    &&& polls.len() > 0 ==> polls[0] - start <= gap
    &&& forall|i: int|
        0 < i < polls.len() ==> polls[i - 1] <= #[trigger] polls[i] && polls[i] - polls[i - 1]
            <= gap
}

/// The time of the last look, or `start` when there is none.
pub open spec fn end_time(polls: Seq<u64>, start: u64) -> u64 {
    if polls.len() == 0 {
        start
    } else {
        polls.last()
    }
}

proof fn lemma_vsync_cadence_from(polls: Seq<u64>, interval: u64, gap: u64, last: u64, start: u64)
    requires
        interval > 0,
        2 * gap <= interval,
        last <= start,
        start < last + interval + gap,
        steady_polls(polls, start, gap),
        end_time(polls, start) + 2 * interval <= u64::MAX,
    ensures
        last + vsyncs_sent(polls, interval, last) * interval <= end_time(polls, start),
        end_time(polls, start) < last + (vsyncs_sent(polls, interval, last) + 1) * interval + gap,
    decreases polls.len(),
{
    if polls.len() == 0 {
        assert(vsyncs_sent(polls, interval, last) == 0);
        assert(0 * interval == 0 && (0 + 1) * interval == interval) by (nonlinear_arith);
        return;
    }
    let t = polls[0];
    let rest = polls.drop_first();
    assert(steady_polls(rest, t, gap)) by {
        assert forall|i: int| 0 < i < rest.len() implies rest[i - 1] <= #[trigger] rest[i]
            && rest[i] - rest[i - 1] <= gap by {
            assert(rest[i] == polls[i + 1] && rest[i - 1] == polls[i]);
        }
        assert forall|i: int| 0 <= i < rest.len() implies t <= #[trigger] rest[i] by {
            assert(rest[i] == polls[i + 1]);
            if i > 0 {
                assert(rest[i - 1] == polls[i]);
            }
            lemma_sorted_from_steps(polls, i + 1);
        }
        if rest.len() > 0 {
            assert(rest[0] == polls[1]);
        }
    }
    assert(end_time(rest, t) == end_time(polls, start)) by {
        if rest.len() > 0 {
            assert(rest.last() == polls.last());
        }
    }
    assert(t <= end_time(polls, start)) by {
        if rest.len() > 0 {
            assert(t <= rest[rest.len() - 1]);
        }
    }
    if elapsed_spec(t, last, interval) {
        let next = advance_spec(last, interval, t);
        assert(next == last + interval);
        lemma_vsync_cadence_from(rest, interval, gap, next, t);
        let c = vsyncs_sent(rest, interval, next);
        assert(vsyncs_sent(polls, interval, last) == 1 + c);
        assert(last + (1 + c) * interval == next + c * interval) by (nonlinear_arith)
            requires
                next == last + interval,
        ;
        assert(last + (1 + c + 1) * interval == next + (c + 1) * interval) by (nonlinear_arith)
            requires
                next == last + interval,
        ;
    } else {
        lemma_vsync_cadence_from(rest, interval, gap, last, t);
    }
}

proof fn lemma_sorted_from_steps(polls: Seq<u64>, n: int)
    requires
        0 <= n < polls.len(),
        forall|k: int| 0 < k <= n ==> polls[k - 1] <= #[trigger] polls[k],
    ensures
        polls[0] <= polls[n],
    decreases n,
{
    if n > 0 {
        lemma_sorted_from_steps(polls, n - 1);
    }
}

/// VSYNC cadence: when the pump looks at the clock at least every `gap`
/// microseconds, with `gap` at most half the interval, and the schedule
/// starts at time `start`, the number `c` of VSYNC messages sent by the time
/// `end` of the last look satisfies `c * interval <= end - start <
/// (c + 1) * interval + gap`: never more than one per interval, and at most
/// one behind.
pub proof fn lemma_vsync_cadence(polls: Seq<u64>, interval: u64, gap: u64, start: u64)
    requires
        interval > 0,
        2 * gap <= interval,
        steady_polls(polls, start, gap),
        end_time(polls, start) + 2 * interval <= u64::MAX,
    ensures
        start + vsyncs_sent(polls, interval, start) * interval <= end_time(polls, start),
        end_time(polls, start) < start + (vsyncs_sent(polls, interval, start) + 1) * interval
            + gap,
{
    lemma_vsync_cadence_from(polls, interval, gap, start, start);
}

/// Over ten seconds, with the 16 666 µs interval and the pump looking at
/// the clock at least every `gap` microseconds, where `gap` is at most half
/// the interval (8 333 µs), 599 or 600 VSYNC messages go out.
pub proof fn lemma_vsync_ten_seconds(polls: Seq<u64>, gap: u64)
    requires
        2 * gap <= VSYNC_INTERVAL_US,
        steady_polls(polls, 0, gap),
        end_time(polls, 0) == 10_000_000,
    ensures
        599 <= vsyncs_sent(polls, VSYNC_INTERVAL_US, 0) <= 600,
{
    lemma_vsync_cadence(polls, VSYNC_INTERVAL_US, gap, 0);
    let c = vsyncs_sent(polls, VSYNC_INTERVAL_US, 0);
    assert(599 <= c <= 600) by (nonlinear_arith)
        requires
            c * 16666 <= 10_000_000,
            10_000_000 < (c + 1) * 16666 + gap,
            2 * gap <= 16666,
    ;
}

} // verus!
