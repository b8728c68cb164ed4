//! Messages exchanged between the eZ80 and the VDP, and their wire format.
//!
//! Every frame is `[len:u16-LE][type:u8][payload...]`, where `len` counts the
//! type byte and the payload.

use vstd::prelude::*;
use vstd::utf8::*;

use crate::bytes::{append_bytes, copy_range};

verus! {

/// Protocol version number sent in `Hello` and `HelloAck`.
pub const PROTOCOL_VERSION: u8 = 1;

/// Largest payload that one frame may carry.
pub const MAX_UART_DATA_SIZE: usize = 1024;

pub const MSG_UART_DATA: u8 = 0x01;
pub const MSG_VSYNC: u8 = 0x02;
pub const MSG_CTS: u8 = 0x03;
pub const MSG_HELLO: u8 = 0x10;
pub const MSG_HELLO_ACK: u8 = 0x11;
pub const MSG_SHUTDOWN: u8 = 0x20;

#[verifier::external_type_specification]
#[verifier::external_body]
pub struct ExIoError(std::io::Error);

/// Errors of the frame codec and of the transports that carry it.
#[derive(Debug)]
pub enum ProtocolError {
    /// I/O error during read or write.
    Io(std::io::Error),
    /// Unknown message type received.
    UnknownMessageType(u8),
    /// The stated frame length exceeds the largest allowed frame.
    PayloadTooLarge(usize),
    /// Malformed frame.
    InvalidFormat(String),
    /// The peer closed the connection.
    ConnectionClosed,
}

/// What a `ProtocolError` is, without the text and the I/O details.
pub enum ErrorView {
    Io,
    UnknownMessageType(u8),
    PayloadTooLarge(usize),
    InvalidFormat,
    ConnectionClosed,
}

impl View for ProtocolError {
    type V = ErrorView;

    open spec fn view(&self) -> ErrorView {
        match self {
            ProtocolError::Io(_) => ErrorView::Io,
            ProtocolError::UnknownMessageType(t) => ErrorView::UnknownMessageType(*t),
            ProtocolError::PayloadTooLarge(n) => ErrorView::PayloadTooLarge(*n),
            ProtocolError::InvalidFormat(_) => ErrorView::InvalidFormat,
            ProtocolError::ConnectionClosed => ErrorView::ConnectionClosed,
        }
    }
}

/// Messages exchanged between the eZ80 and the VDP.
#[derive(Debug, Clone, PartialEq)]
pub enum Message {
    /// UART data bytes (both directions).
    UartData(Vec<u8>),
    /// Vertical blank tick from the VDP.
    Vsync,
    /// Clear-to-send status from the VDP.
    Cts(bool),
    /// Opening message of the side that initiated the connection.
    Hello { version: u8, flags: u8 },
    /// Reply of the passive side, with advisory JSON capabilities.
    HelloAck { version: u8, capabilities: String },
    /// Shutdown request (either direction).
    Shutdown,
}

/// The mathematical value of a `Message`.
pub enum MessageView {
    UartData(Seq<u8>),
    Vsync,
    Cts(bool),
    Hello { version: u8, flags: u8 },
    HelloAck { version: u8, capabilities: Seq<char> },
    Shutdown,
}

impl View for Message {
    type V = MessageView;

    open spec fn view(&self) -> MessageView {
        match self {
            Message::UartData(d) => MessageView::UartData(d@),
            Message::Vsync => MessageView::Vsync,
            Message::Cts(b) => MessageView::Cts(*b),
            Message::Hello { version, flags } => MessageView::Hello {
                version: *version,
                flags: *flags,
            },
            Message::HelloAck { version, capabilities } => MessageView::HelloAck {
                version: *version,
                capabilities: capabilities@,
            },
            Message::Shutdown => MessageView::Shutdown,
        }
    }
}

/// The type byte of a message.
pub open spec fn type_id(m: MessageView) -> u8 {
    match m {
        MessageView::UartData(_) => MSG_UART_DATA,
        MessageView::Vsync => MSG_VSYNC,
        MessageView::Cts(_) => MSG_CTS,
        MessageView::Hello { .. } => MSG_HELLO,
        MessageView::HelloAck { .. } => MSG_HELLO_ACK,
        MessageView::Shutdown => MSG_SHUTDOWN,
    }
}

/// The payload bytes of a message.
pub open spec fn payload_bytes(m: MessageView) -> Seq<u8> {
    match m {
        MessageView::UartData(d) => d,
        MessageView::Vsync => Seq::empty(),
        MessageView::Cts(b) => seq![if b { 1u8 } else { 0u8 }],
        MessageView::Hello { version, flags } => seq![version, flags],
        MessageView::HelloAck { version, capabilities } => seq![version] + encode_utf8(
            capabilities,
        ),
        MessageView::Shutdown => Seq::empty(),
    }
}

/// A message whose payload fits in one frame.
pub open spec fn fits_frame(m: MessageView) -> bool {
    payload_bytes(m).len() <= MAX_UART_DATA_SIZE
}

/// Two little-endian bytes of `n`.
pub open spec fn le16(n: nat) -> Seq<u8> {
    seq![(n % 256) as u8, ((n / 256) % 256) as u8]
}

/// The value of two little-endian bytes.
pub open spec fn from_le16(b0: u8, b1: u8) -> nat {
    (b0 as nat) + 256 * (b1 as nat)
}

/// The type byte followed by the payload.
pub open spec fn body_bytes(m: MessageView) -> Seq<u8> {
    seq![type_id(m)] + payload_bytes(m)
}

/// The whole frame of a message.
pub open spec fn frame_bytes(m: MessageView) -> Seq<u8> {
    le16(body_bytes(m).len()) + body_bytes(m)
}

/// Text of the bytes of a capabilities field: the characters they encode
/// when they are valid UTF-8, a lossy reading of them otherwise.
pub open spec fn utf8_text(b: Seq<u8>) -> Seq<char> {
    if valid_utf8(b) {
        decode_utf8(b)
    } else {
        lossy_utf8(b)
    }
}

/// The lossy reading of bytes that are not valid UTF-8.
pub uninterp spec fn lossy_utf8(b: Seq<u8>) -> Seq<char>;

/// The outcome of checking a stated frame length.
pub open spec fn length_view(len: nat) -> Result<nat, ErrorView> {
    if len == 0 {
        Err(ErrorView::InvalidFormat)
    } else if len > MAX_UART_DATA_SIZE + 1 {
        Err(ErrorView::PayloadTooLarge(len as usize))
    } else {
        Ok(len)
    }
}

/// The message that a body (type byte and payload) holds.
pub open spec fn body_view(body: Seq<u8>) -> Result<MessageView, ErrorView>
    recommends
        body.len() >= 1,
{
    let t = body[0];
    let p = body.drop_first();
    if t == MSG_UART_DATA {
        Ok(MessageView::UartData(p))
    } else if t == MSG_VSYNC {
        Ok(MessageView::Vsync)
    } else if t == MSG_CTS {
        if p.len() == 0 {
            Err(ErrorView::InvalidFormat)
        } else {
            Ok(MessageView::Cts(p[0] != 0))
        }
    } else if t == MSG_HELLO {
        if p.len() < 2 {
            Err(ErrorView::InvalidFormat)
        } else {
            Ok(MessageView::Hello { version: p[0], flags: p[1] })
        }
    } else if t == MSG_HELLO_ACK {
        if p.len() == 0 {
            Err(ErrorView::InvalidFormat)
        } else {
            Ok(MessageView::HelloAck { version: p[0], capabilities: utf8_text(p.drop_first()) })
        }
    } else if t == MSG_SHUTDOWN {
        Ok(MessageView::Shutdown)
    } else {
        Err(ErrorView::UnknownMessageType(t))
    }
}

/// The outcome of decoding the front of a buffer: the message and the number
/// of bytes it took.
pub open spec fn decode_view(data: Seq<u8>) -> Result<(MessageView, nat), ErrorView> {
    if data.len() < 3 {
        Err(ErrorView::InvalidFormat)
    } else {
        match length_view(from_le16(data[0], data[1])) {
            Err(e) => Err(e),
            Ok(len) => {
                if data.len() < 2 + len {
                    Err(ErrorView::InvalidFormat)
                } else {
                    match body_view(data.subrange(2, 2 + len as int)) {
                        Ok(m) => Ok((m, (2 + len) as nat)),
                        Err(e) => Err(e),
                    }
                }
            }
        }
    }
}

/// Two little-endian length bytes read back as the length they were made from.
proof fn lemma_le16(n: nat)
    requires
        n < 65536,
    ensures
        from_le16(le16(n)[0], le16(n)[1]) == n,
{
    assert((n % 256) + 256 * ((n / 256) % 256) == n) by (nonlinear_arith)
        requires
            n < 65536,
    ;
}

/// A buffer that starts with the frame of `m` decodes to `m`, and the decode
/// takes exactly the bytes of that frame, whatever follows them.
pub proof fn lemma_decode_frame_prefix(m: MessageView, rest: Seq<u8>)
    requires
        fits_frame(m),
    ensures
        decode_view(frame_bytes(m) + rest) == Ok::<(MessageView, nat), ErrorView>(
            (m, frame_bytes(m).len()),
        ),
{
    broadcast use encode_utf8_valid_utf8, encode_utf8_decode_utf8;

    let body = body_bytes(m);
    let data = frame_bytes(m) + rest;
    let n = body.len();
    lemma_le16(n);
    assert(data[0] == le16(n)[0] && data[1] == le16(n)[1]);
    assert(data.subrange(2, 2 + n as int) =~= body);
    assert(body.drop_first() =~= payload_bytes(m));
    match m {
        MessageView::HelloAck { version, capabilities } => {
            assert(payload_bytes(m).drop_first() =~= encode_utf8(capabilities));
        },
        _ => {},
    }
}

/// Decoding the frame of a message gives the message back, with the whole
/// frame consumed.
pub proof fn lemma_round_trip(m: MessageView)
    requires
        fits_frame(m),
    ensures
        decode_view(frame_bytes(m)) == Ok::<(MessageView, nat), ErrorView>(
            (m, frame_bytes(m).len()),
        ),
{
    lemma_decode_frame_prefix(m, Seq::empty());
    assert(frame_bytes(m) + Seq::<u8>::empty() =~= frame_bytes(m));
}

/// The frame of `UartData(bytes)` is three bytes longer than `bytes`, and a
/// buffer whose stated length exceeds the largest frame is refused as too
/// large.
pub proof fn lemma_envelope_bounds(bytes: Seq<u8>, data: Seq<u8>)
    requires
        data.len() >= 3,
        from_le16(data[0], data[1]) > MAX_UART_DATA_SIZE + 1,
    ensures
        frame_bytes(MessageView::UartData(bytes)).len() == 3 + bytes.len(),
        decode_view(data) == Err::<(MessageView, nat), ErrorView>(
            ErrorView::PayloadTooLarge(from_le16(data[0], data[1]) as usize),
        ),
{
}

/// Three frames sent back to back decode, one after the other, to the three
/// messages in order, and together they take exactly the whole stream.
pub proof fn lemma_three_frames(a: MessageView, b: MessageView, c: MessageView)
    requires
        fits_frame(a),
        fits_frame(b),
        fits_frame(c),
    ensures
        ({
            let s = frame_bytes(a) + frame_bytes(b) + frame_bytes(c);
            let na = frame_bytes(a).len();
            let nb = frame_bytes(b).len();
            let nc = frame_bytes(c).len();
            &&& decode_view(s) == Ok::<(MessageView, nat), ErrorView>((a, na))
            &&& decode_view(s.skip(na as int)) == Ok::<(MessageView, nat), ErrorView>((b, nb))
            &&& decode_view(s.skip((na + nb) as int)) == Ok::<(MessageView, nat), ErrorView>((c, nc))
            &&& na + nb + nc == s.len()
        }),
{
    let fa = frame_bytes(a);
    let fb = frame_bytes(b);
    let fc = frame_bytes(c);
    let s = fa + fb + fc;
    lemma_decode_frame_prefix(a, fb + fc);
    assert(s =~= fa + (fb + fc));
    lemma_decode_frame_prefix(b, fc);
    assert(s.skip(fa.len() as int) =~= fb + fc);
    lemma_decode_frame_prefix(c, Seq::empty());
    assert(s.skip((fa.len() + fb.len()) as int) =~= fc + Seq::<u8>::empty());
}

/// Relies on `String::from_utf8_lossy`: bytes that are valid UTF-8 give the
/// characters they encode, and the result depends on the bytes alone.
#[verifier::external_body]
fn text_from_utf8(b: &[u8]) -> (r: String)
    ensures
        valid_utf8(b@) ==> r@ == decode_utf8(b@),
        !valid_utf8(b@) ==> r@ == lossy_utf8(b@),
{
    String::from_utf8_lossy(b).into_owned()
}

/// Relies on `std::io::Read::read_exact`: on success exactly `n` bytes were read.
#[verifier::external_body]
fn read_exact_bytes<R: std::io::Read>(reader: &mut R, n: usize) -> (r: Result<
    Vec<u8>,
    std::io::Error,
>)
    ensures
        r is Ok ==> r->Ok_0@.len() == n,
{
    let mut buf = vec![0u8; n];
    match reader.read_exact(&mut buf) {
        Ok(()) => Ok(buf),
        Err(e) => Err(e),
    }
}

/// Relies on `std::io::Write::write_all`.
#[verifier::external_body]
fn write_all_bytes<W: std::io::Write>(writer: &mut W, bytes: &[u8]) -> (r: Result<
    (),
    std::io::Error,
>) {
    writer.write_all(bytes)
}

/// Relies on `std::io::Write::flush`.
#[verifier::external_body]
fn flush_writer<W: std::io::Write>(writer: &mut W) -> (r: Result<(), std::io::Error>) {
    writer.flush()
}

/// Whether an I/O error is an early end of stream (`ErrorKind::UnexpectedEof`).
pub uninterp spec fn io_error_is_eof(e: std::io::Error) -> bool;

/// Relies on `std::io::Error::kind`: whether the error is an early end of stream.
#[verifier::external_body]
fn is_unexpected_eof(e: &std::io::Error) -> (r: bool)
    ensures
        r == io_error_is_eof(*e),
{
    e.kind() == std::io::ErrorKind::UnexpectedEof
}

impl ProtocolError {
    /// Classifies an I/O error: an early end of stream is a closed connection.
    pub fn from_io(e: std::io::Error) -> (r: ProtocolError)
        ensures
            io_error_is_eof(e) ==> r@ == ErrorView::ConnectionClosed,
            !io_error_is_eof(e) ==> r == ProtocolError::Io(e),
    {
        if is_unexpected_eof(&e) {
            ProtocolError::ConnectionClosed
        } else {
            ProtocolError::Io(e)
        }
    }
}

/// Checks the stated length of a frame (type byte and payload).
pub fn frame_length(b0: u8, b1: u8) -> (r: Result<usize, ProtocolError>)
    ensures
        match r {
            Ok(n) => length_view(from_le16(b0, b1)) == Ok::<nat, ErrorView>(n as nat),
            Err(e) => length_view(from_le16(b0, b1)) == Err::<nat, ErrorView>(e@),
        },
{
    let len: usize = b0 as usize + 256 * (b1 as usize);
    if len == 0 {
        Err(ProtocolError::InvalidFormat("Zero-length message".to_string()))
    } else if len > MAX_UART_DATA_SIZE + 1 {
        Err(ProtocolError::PayloadTooLarge(len))
    } else {
        Ok(len)
    }
}

/// Decodes a body: the type byte followed by the payload.
pub fn decode_body(body: &[u8]) -> (r: Result<Message, ProtocolError>)
    requires
        body@.len() >= 1,
    ensures
        match r {
            Ok(m) => body_view(body@) == Ok::<MessageView, ErrorView>(m@),
            Err(e) => body_view(body@) == Err::<MessageView, ErrorView>(e@),
        },
{
    let t = body[0];
    let n = body.len();
    let ghost p = body@.drop_first();
    if t == MSG_UART_DATA {
        let d = copy_range(body, 1, n);
        assert(d@ =~= p);
        Ok(Message::UartData(d))
    } else if t == MSG_VSYNC {
        Ok(Message::Vsync)
    } else if t == MSG_CTS {
        if n < 2 {
            Err(ProtocolError::InvalidFormat("CTS message missing payload".to_string()))
        } else {
            Ok(Message::Cts(body[1] != 0))
        }
    } else if t == MSG_HELLO {
        if n < 3 {
            Err(ProtocolError::InvalidFormat("HELLO message too short".to_string()))
        } else {
            Ok(Message::Hello { version: body[1], flags: body[2] })
        }
    } else if t == MSG_HELLO_ACK {
        if n < 2 {
            Err(ProtocolError::InvalidFormat("HELLO_ACK message too short".to_string()))
        } else {
            let rest = vstd::slice::slice_subrange(body, 2, n);
            assert(rest@ =~= p.drop_first());
            let capabilities = text_from_utf8(rest);
            Ok(Message::HelloAck { version: body[1], capabilities })
        }
    } else if t == MSG_SHUTDOWN {
        Ok(Message::Shutdown)
    } else {
        Err(ProtocolError::UnknownMessageType(t))
    }
}

impl Message {
    /// Whether the payload of the message fits in one frame.
    pub fn fits(&self) -> (r: bool)
        ensures
            r == fits_frame(self@),
    {
        match self {
            Message::UartData(data) => data.len() <= MAX_UART_DATA_SIZE,
            Message::HelloAck { capabilities, .. } => {
                let n = capabilities.as_str().as_bytes().len();
                assert(payload_bytes(self@).len() == 1 + n);
                n < MAX_UART_DATA_SIZE
            },
            Message::Cts(_) => {
                assert(payload_bytes(self@).len() == 1);
                true
            },
            Message::Hello { .. } => {
                assert(payload_bytes(self@).len() == 2);
                true
            },
            _ => true,
        }
    }

    /// Encodes the message into its frame.
    pub fn encode(&self) -> (r: Vec<u8>)
        requires
            fits_frame(self@),
        ensures
            r@ == frame_bytes(self@),
    {
        let mut payload: Vec<u8> = Vec::new();
        let msg_type: u8 = match self {
            Message::UartData(data) => {
                append_bytes(&mut payload, data.as_slice());
                MSG_UART_DATA
            },
            Message::Vsync => MSG_VSYNC,
            Message::Cts(ready) => {
                payload.push(if *ready { 1u8 } else { 0u8 });
                MSG_CTS
            },
            Message::Hello { version, flags } => {
                payload.push(*version);
                payload.push(*flags);
                MSG_HELLO
            },
            Message::HelloAck { version, capabilities } => {
                payload.push(*version);
                append_bytes(&mut payload, capabilities.as_str().as_bytes());
                MSG_HELLO_ACK
            },
            Message::Shutdown => MSG_SHUTDOWN,
        };
        assert(payload@ =~= payload_bytes(self@));
        let len: usize = 1 + payload.len();
        let mut result: Vec<u8> = Vec::with_capacity(2 + len);
        result.push((len % 256) as u8);
        result.push((len / 256) as u8);
        result.push(msg_type);
        append_bytes(&mut result, payload.as_slice());
        assert(result@ =~= frame_bytes(self@));
        result
    }

    /// Decodes the frame at the front of `data`, giving the message and the
    /// number of bytes the frame took.
    pub fn decode(data: &[u8]) -> (r: Result<(Message, usize), ProtocolError>)
        ensures
            match r {
                Ok((m, n)) => decode_view(data@) == Ok::<(MessageView, nat), ErrorView>(
                    (m@, n as nat),
                ),
                Err(e) => decode_view(data@) == Err::<(MessageView, nat), ErrorView>(e@),
            },
    {
        if data.len() < 3 {
            return Err(ProtocolError::InvalidFormat("Message too short".to_string()));
        }
        let len = match frame_length(data[0], data[1]) {
            Ok(len) => len,
            Err(e) => {
                return Err(e);
            },
        };
        let total_len: usize = 2 + len;
        if data.len() < total_len {
            return Err(ProtocolError::InvalidFormat("Incomplete message".to_string()));
        }
        let body = vstd::slice::slice_subrange(data, 2, total_len);
        match decode_body(body) {
            Ok(m) => Ok((m, total_len)),
            Err(e) => Err(e),
        }
    }

    /// Writes the frame of the message and flushes the writer.
    pub fn write_to<W: std::io::Write>(&self, writer: &mut W) -> (r: Result<(), ProtocolError>)
        requires
            fits_frame(self@),
        ensures
            r is Err ==> (r->Err_0@ == ErrorView::ConnectionClosed || r->Err_0@ == ErrorView::Io),
            r matches Err(ProtocolError::Io(e)) ==> !io_error_is_eof(e),
    {
        let encoded = self.encode();
        match write_all_bytes(writer, encoded.as_slice()) {
            Ok(()) => {},
            Err(e) => {
                return Err(ProtocolError::from_io(e));
            },
        }
        match flush_writer(writer) {
            Ok(()) => Ok(()),
            Err(e) => Err(ProtocolError::from_io(e)),
        }
    }

    /// Reads one frame: two length bytes, then exactly that many more.
    pub fn read_from<R: std::io::Read>(reader: &mut R) -> (r: Result<Message, ProtocolError>)
        ensures
            r is Ok ==> exists|b0: u8, b1: u8, body: Seq<u8>|
                {
                    &&& length_view(from_le16(b0, b1)) == Ok::<nat, ErrorView>(body.len())
                    &&& body_view(body) == Ok::<MessageView, ErrorView>(r->Ok_0@)
                },
            r matches Err(ProtocolError::Io(e)) ==> !io_error_is_eof(e),
    {
        let header = match read_exact_bytes(reader, 2) {
            Ok(h) => h,
            Err(e) => {
                return Err(ProtocolError::from_io(e));
            },
        };
        let len = match frame_length(header[0], header[1]) {
            Ok(len) => len,
            Err(e) => {
                return Err(e);
            },
        };
        let body = match read_exact_bytes(reader, len) {
            Ok(b) => b,
            Err(e) => {
                return Err(ProtocolError::from_io(e));
            },
        };
        let r = decode_body(body.as_slice());
        if let Ok(m) = &r {
            assert(length_view(from_le16(header@[0], header@[1])) == Ok::<nat, ErrorView>(
                body@.len(),
            ));
        }
        r
    }
}

} // verus!
