//! DeZog remote protocol (DZRP) envelopes and little-endian field helpers.
//!
//! A request is `[len:u32-LE][seq_num][cmd_id][payload...]`, a response
//! `[len:u32-LE][seq_num][payload...]`, and a notification
//! `[len:u32-LE][0][ntf_id][payload...]`; `len` counts what follows it.

use vstd::prelude::*;

use crate::bytes::{append_bytes, copy_range};

verus! {

pub const CMD_INIT: u8 = 1;
pub const CMD_CLOSE: u8 = 2;
pub const CMD_GET_REGISTERS: u8 = 3;
pub const CMD_SET_REGISTER: u8 = 4;
pub const CMD_WRITE_BANK: u8 = 5;
pub const CMD_CONTINUE: u8 = 6;
pub const CMD_PAUSE: u8 = 7;
pub const CMD_READ_MEM: u8 = 8;
pub const CMD_WRITE_MEM: u8 = 9;
pub const CMD_SET_SLOT: u8 = 10;
pub const CMD_GET_TBBLUE_REG: u8 = 11;
pub const CMD_SET_BORDER: u8 = 12;
pub const CMD_SET_BREAKPOINTS: u8 = 13;
pub const CMD_RESTORE_MEM: u8 = 14;
pub const CMD_LOOPBACK: u8 = 15;
pub const CMD_GET_SPRITES_PALETTE: u8 = 16;
pub const CMD_GET_SPRITES_CLIP: u8 = 17;
pub const CMD_GET_SPRITES: u8 = 18;
pub const CMD_GET_SPRITE_PATTERNS: u8 = 19;
pub const CMD_STEP_INTO: u8 = 20;
pub const CMD_READ_STATE: u8 = 21;
pub const CMD_WRITE_STATE: u8 = 22;
pub const CMD_ADD_BREAKPOINT: u8 = 40;
pub const CMD_REMOVE_BREAKPOINT: u8 = 41;
pub const CMD_ADD_WATCHPOINT: u8 = 42;
pub const CMD_REMOVE_WATCHPOINT: u8 = 43;
pub const CMD_STEP_OVER: u8 = 44;
pub const CMD_STEP_OUT: u8 = 45;

/// Notification sent when the CPU pauses.
pub const NTF_PAUSE: u8 = 1;

pub const BREAK_REASON_MANUAL: u8 = 1;
pub const BREAK_REASON_BREAKPOINT: u8 = 2;
pub const BREAK_REASON_WATCHPOINT_READ: u8 = 3;
pub const BREAK_REASON_WATCHPOINT_WRITE: u8 = 4;
pub const BREAK_REASON_OTHER: u8 = 5;

pub const BP_TYPE_PROGRAM: u16 = 0;
pub const BP_TYPE_CONDITION: u16 = 1;
pub const BP_TYPE_LOG: u16 = 2;

/// Two little-endian bytes of a value below 2^16.
pub open spec fn le16_bytes(v: nat) -> Seq<u8> {
    seq![(v % 256) as u8, ((v / 256) % 256) as u8]
}

/// Three little-endian bytes of the low 24 bits of a value.
pub open spec fn le24_bytes(v: nat) -> Seq<u8> {
    seq![(v % 256) as u8, ((v / 256) % 256) as u8, ((v / 65536) % 256) as u8]
}

/// Four little-endian bytes of a value below 2^32.
pub open spec fn le32_bytes(v: nat) -> Seq<u8> {
    seq![
        (v % 256) as u8,
        ((v / 256) % 256) as u8,
        ((v / 65536) % 256) as u8,
        ((v / 16777216) % 256) as u8,
    ]
}

/// The value of the little-endian bytes `b`.
pub open spec fn le_value(b: Seq<u8>) -> nat
    decreases b.len(),
{
    if b.len() == 0 {
        0
    } else {
        (b[0] as nat) + 256 * le_value(b.drop_first())
    }
}

/// The value of the `n` little-endian bytes at `offset`, or zero when they do
/// not all lie inside `data`.
pub open spec fn le_field(data: Seq<u8>, offset: int, n: int) -> nat {
    if offset + n > data.len() {
        0
    } else {
        le_value(data.subrange(offset, offset + n))
    }
}

/// A request received from the IDE, without its length prefix.
#[derive(Debug, Clone)]
pub struct DzrpMessage {
    pub seq_num: u8,
    pub cmd_id: u8,
    pub payload: Vec<u8>,
}

/// The envelope of a response: length, sequence number, payload.
pub open spec fn response_bytes(seq_num: u8, payload: Seq<u8>) -> Seq<u8> {
    le32_bytes(1 + payload.len()) + seq![seq_num] + payload
}

/// The envelope of a notification: length, zero sequence number, id, payload.
pub open spec fn notification_bytes(ntf_id: u8, payload: Seq<u8>) -> Seq<u8> {
    le32_bytes(2 + payload.len()) + seq![0u8, ntf_id] + payload
}

/// Largest payload whose envelope length still fits in 32 bits.
pub open spec fn fits_envelope(payload: Seq<u8>) -> bool {
    payload.len() + 2 <= u32::MAX
}

impl DzrpMessage {
    /// Parses a request from its bytes after the length prefix.
    pub fn parse(data: &[u8]) -> (r: Option<Self>)
        ensures
            data@.len() < 2 <==> r is None,
            r matches Some(m) ==> {
                &&& m.seq_num == data@[0]
                &&& m.cmd_id == data@[1]
                &&& m.payload@ == data@.skip(2)
            },
    {
        if data.len() < 2 {
            return None;
        }
        let payload = copy_range(data, 2, data.len());
        Some(DzrpMessage { seq_num: data[0], cmd_id: data[1], payload })
    }

    /// The response to this request, carrying `payload` under the same
    /// sequence number.
    pub fn response(&self, payload: Vec<u8>) -> (r: Vec<u8>)
        requires
            fits_envelope(payload@),
        ensures
            r@ == response_bytes(self.seq_num, payload@),
    {
        let mut response: Vec<u8> = Vec::new();
        let len: u32 = (1 + payload.len()) as u32;
        write_u32_le(&mut response, len);
        response.push(self.seq_num);
        append_bytes(&mut response, payload.as_slice());
        assert(response@ =~= response_bytes(self.seq_num, payload@));
        response
    }
}

/// A notification with the given id and payload.
pub fn create_notification(ntf_id: u8, payload: &[u8]) -> (r: Vec<u8>)
    requires
        fits_envelope(payload@),
    ensures
        r@ == notification_bytes(ntf_id, payload@),
{
    let mut msg: Vec<u8> = Vec::new();
    let len: u32 = (2 + payload.len()) as u32;
    write_u32_le(&mut msg, len);
    msg.push(0);
    msg.push(ntf_id);
    append_bytes(&mut msg, payload);
    assert(msg@ =~= notification_bytes(ntf_id, payload@));
    msg
}

/// Whether `n` bytes starting at `offset` lie inside a buffer of length `len`.
fn field_inside(len: usize, offset: usize, n: usize) -> (r: bool)
    ensures
        r == (offset + n <= len),
{
    offset <= len && len - offset >= n
}

/// One step of reading little-endian bytes from the front.
proof fn lemma_le_value_step(s: Seq<u8>, k: int)
    requires
        0 <= k < s.len(),
    ensures
        le_value(s.skip(k)) == s[k] + 256 * le_value(s.skip(k + 1)),
{
    assert(s.skip(k).drop_first() =~= s.skip(k + 1));
}

/// The value of a short little-endian field, byte by byte.
proof fn lemma_le_value_short(s: Seq<u8>)
    requires
        2 <= s.len() <= 4,
    ensures
        s.len() == 2 ==> le_value(s) == s[0] + 256 * s[1],
        s.len() == 3 ==> le_value(s) == s[0] + 256 * s[1] + 65536 * s[2],
        s.len() == 4 ==> le_value(s) == s[0] + 256 * s[1] + 65536 * s[2] + 16777216 * s[3],
{
    assert(s.skip(0) =~= s);
    assert(le_value(s.skip(s.len() as int)) == 0);
    lemma_le_value_step(s, 0);
    lemma_le_value_step(s, 1);
    if s.len() > 2 {
        lemma_le_value_step(s, 2);
    }
    if s.len() > 3 {
        lemma_le_value_step(s, 3);
    }
}

/// Reads a 16-bit little-endian value at `offset`, or zero when it does not fit.
pub fn read_u16_le(data: &[u8], offset: usize) -> (r: u16)
    ensures
        r == le_field(data@, offset as int, 2),
{
    if !field_inside(data.len(), offset, 2) {
        return 0;
    }
    proof {
        lemma_le_value_short(data@.subrange(offset as int, offset + 2));
    }
    data[offset] as u16 + 256 * (data[offset + 1] as u16)
}

/// Reads a 24-bit little-endian value at `offset` (an eZ80 address), or zero
/// when it does not fit.
pub fn read_u24_le(data: &[u8], offset: usize) -> (r: u32)
    ensures
        r == le_field(data@, offset as int, 3),
        r < 0x1000000,
{
    if !field_inside(data.len(), offset, 3) {
        return 0;
    }
    proof {
        lemma_le_value_short(data@.subrange(offset as int, offset + 3));
    }
    data[offset] as u32 + 256 * (data[offset + 1] as u32) + 65536 * (data[offset + 2] as u32)
}

/// Reads a 32-bit little-endian value at `offset`, or zero when it does not fit.
pub fn read_u32_le(data: &[u8], offset: usize) -> (r: u32)
    ensures
        r == le_field(data@, offset as int, 4),
{
    if !field_inside(data.len(), offset, 4) {
        return 0;
    }
    proof {
        lemma_le_value_short(data@.subrange(offset as int, offset + 4));
    }
    data[offset] as u32 + 256 * (data[offset + 1] as u32) + 65536 * (data[offset + 2] as u32)
        + 16777216 * (data[offset + 3] as u32)
}

/// Appends the two little-endian bytes of `value`.
pub fn write_u16_le(vec: &mut Vec<u8>, value: u16)
    ensures
        final(vec)@ == old(vec)@ + le16_bytes(value as nat),
{
    vec.push((value % 256) as u8);
    vec.push((value / 256) as u8);
    assert(final(vec)@ =~= old(vec)@ + le16_bytes(value as nat));
}

/// Appends the three little-endian bytes of the low 24 bits of `value`.
pub fn write_u24_le(vec: &mut Vec<u8>, value: u32)
    ensures
        final(vec)@ == old(vec)@ + le24_bytes(value as nat),
{
    vec.push((value % 256) as u8);
    vec.push(((value / 256) % 256) as u8);
    vec.push(((value / 65536) % 256) as u8);
    assert(final(vec)@ =~= old(vec)@ + le24_bytes(value as nat));
}

/// Appends the four little-endian bytes of `value`.
pub fn write_u32_le(vec: &mut Vec<u8>, value: u32)
    ensures
        final(vec)@ == old(vec)@ + le32_bytes(value as nat),
{
    vec.push((value % 256) as u8);
    vec.push(((value / 256) % 256) as u8);
    vec.push(((value / 65536) % 256) as u8);
    vec.push((value / 16777216) as u8);
    assert(final(vec)@ =~= old(vec)@ + le32_bytes(value as nat));
}

} // verus!
