//! The decisions of a DZRP session with the IDE.
//!
//! The session is strictly serial: each request becomes a plan (the debugger
//! commands to send, what to wait for, how to answer), the caller performs it
//! over the channels and the socket, and hands the debugger's reply back to
//! build the response. Debugger responses that arrive on their own pass
//! through `observe`, which keeps the last known PC and turns pauses into
//! notifications.

use vstd::prelude::*;

use std::collections::HashMap;

use crate::debugger::{DebugCmd, DebugResp, PauseReason};
use crate::dzrp::{
    create_notification, fits_envelope, le16_bytes, le_field, notification_bytes, read_u16_le, read_u24_le,
    read_u32_le, response_bytes, write_u16_le, DzrpMessage, CMD_ADD_BREAKPOINT, CMD_CLOSE,
    CMD_CONTINUE, CMD_GET_REGISTERS, CMD_INIT, CMD_LOOPBACK, CMD_PAUSE, CMD_READ_MEM,
    CMD_REMOVE_BREAKPOINT, CMD_SET_REGISTER, CMD_STEP_INTO, CMD_STEP_OVER, CMD_WRITE_MEM,
    NTF_PAUSE,
};
use crate::translator::{
    create_init_response, debug_resp_to_dzrp, dzrp_to_debug_cmd, has_debug_cmd, init_response_bytes,
    is_debug_cmd_for, pause_payload, pause_to_notification_payload, resp_payload,
};

verus! {

broadcast use vstd::std_specs::hash::group_hash_axioms;

/// Default TCP port of the DZRP server.
pub const DEFAULT_PORT: u16 = 11000;

/// What the session waits for after sending its commands.
#[derive(Debug, Clone, Copy, PartialEq, Eq, Structural)]
pub enum Wait {
    /// Nothing: the answer goes out at once.
    Nothing,
    /// An acknowledgement (`Pong`), for at most one second.
    Pong,
    /// Any response that is not a pause, for at most five seconds.
    Response,
}

/// How the response to a request is made.
#[derive(Debug, Clone)]
pub enum Reply {
    /// This payload, whatever the debugger answered.
    Fixed(Vec<u8>),
    /// The payload that the debugger's reply converts to; empty when there
    /// was none, or it converts to nothing.
    FromDebugger,
}

/// What to do for one request.
#[derive(Debug, Clone)]
pub struct RequestPlan {
    pub commands: Vec<DebugCmd>,
    pub wait: Wait,
    pub reply: Reply,
    /// The connection ends once the response is sent.
    pub close: bool,
}

/// State of the bridge that outlives single requests.
#[derive(Debug)]
pub struct DzrpSession {
    /// Breakpoint id that the IDE gave each CPU address.
    pub breakpoint_ids: HashMap<u32, u16>,
    /// Id handed out when the IDE gives none; wraps on overflow.
    pub next_bp_id: u16,
    /// PC of the last state the debugger reported.
    pub last_pc: u32,
    /// A pause not yet relayed: it goes out with the PC of the state report
    /// that follows it.
    pub pending_pause: Option<PauseReason>,
}

/// The notification relaying a pause at `pc`.
pub open spec fn pause_notification(reason: PauseReason, pc: u32) -> Seq<u8> {
    notification_bytes(NTF_PAUSE, pause_payload(reason, pc))
}

/// The wait that a request calls for.
pub open spec fn wait_for(cmd_id: u8, p: Seq<u8>) -> Wait {
    if cmd_id == CMD_GET_REGISTERS || cmd_id == CMD_CONTINUE || cmd_id == CMD_STEP_INTO || cmd_id
        == CMD_STEP_OVER {
        Wait::Response
    } else if cmd_id == CMD_READ_MEM {
        if has_debug_cmd(cmd_id, p) {
            Wait::Response
        } else {
            Wait::Nothing
        }
    } else if cmd_id == CMD_SET_REGISTER || cmd_id == CMD_WRITE_MEM || cmd_id
        == CMD_ADD_BREAKPOINT || cmd_id == CMD_REMOVE_BREAKPOINT {
        if has_debug_cmd(cmd_id, p) {
            Wait::Pong
        } else {
            Wait::Nothing
        }
    } else {
        Wait::Nothing
    }
}

/// Whether the commands are those that a request sends to the debugger.
pub open spec fn commands_for(cmds: Seq<DebugCmd>, cmd_id: u8, p: Seq<u8>) -> bool {
    if cmd_id == CMD_PAUSE {
        cmds == seq![DebugCmd::Pause(PauseReason::DebuggerRequested), DebugCmd::GetState]
    } else if has_debug_cmd(cmd_id, p) {
        cmds.len() == 1 && is_debug_cmd_for(cmds[0], cmd_id, p)
    } else {
        cmds.len() == 0
    }
}

/// The breakpoint id of an ADD_BREAKPOINT request: the one the IDE gave, or
/// the next free one when the payload is too short to hold it.
pub open spec fn requested_bp_id(p: Seq<u8>, next_bp_id: u16) -> u16 {
    if p.len() >= 2 {
        le_field(p, 0, 2) as u16
    } else {
        next_bp_id
    }
}

/// How the response to a request is made.
pub open spec fn reply_for(reply: Reply, cmd_id: u8, p: Seq<u8>, next_bp_id: u16) -> bool {
    if cmd_id == CMD_INIT {
        reply matches Reply::Fixed(v) && v@ == init_response_bytes()
    } else if cmd_id == CMD_LOOPBACK {
        reply matches Reply::Fixed(v) && v@ == p
    } else if cmd_id == CMD_ADD_BREAKPOINT {
        if p.len() >= 7 {
            reply matches Reply::Fixed(v) && v@ == seq![0u8] + le16_bytes(
                requested_bp_id(p, next_bp_id) as nat,
            )
        } else {
            reply matches Reply::Fixed(v) && v@ == seq![1u8]
        }
    } else if cmd_id == CMD_GET_REGISTERS || (cmd_id == CMD_READ_MEM && p.len() >= 5) {
        reply is FromDebugger
    } else {
        reply matches Reply::Fixed(v) && v@.len() == 0
    }
}

/// The payload of the response, given how it is made and what the debugger
/// answered.
pub open spec fn reply_payload(reply: Reply, resp: Option<DebugResp>) -> Seq<u8> {
    match reply {
        Reply::Fixed(v) => v@,
        Reply::FromDebugger => match resp {
            Some(r) => match resp_payload(r) {
                Some(v) => v,
                None => Seq::empty(),
            },
            None => Seq::empty(),
        },
    }
}

/// Whether a debugger response ends a wait.
pub open spec fn ends_wait_spec(wait: Wait, resp: DebugResp) -> bool {
    match wait {
        Wait::Nothing => true,
        Wait::Pong => resp is Pong,
        Wait::Response => !(resp is Paused),
    }
}

/// The outcome of parsing the front of the bytes received from the IDE.
pub open spec fn parsed_request(data: Seq<u8>) -> Option<(u8, u8, Seq<u8>, nat)> {
    if data.len() < 4 {
        None
    } else {
        let len = le_field(data, 0, 4);
        if data.len() < 4 + len || len < 2 {
            None
        } else {
            Some((data[4], data[5], data.subrange(6, 4 + len as int), (4 + len) as nat))
        }
    }
}

/// Parses the first complete request in `data`, giving it and the number of
/// bytes it took; `None` while the request is incomplete or too short to
/// hold a sequence number and a command id.
pub fn try_parse_message(data: &[u8]) -> (r: Option<(DzrpMessage, usize)>)
    ensures
        match r {
            Some((m, n)) => parsed_request(data@) == Some((m.seq_num, m.cmd_id, m.payload@, n as nat)),
            None => parsed_request(data@) is None,
        },
{
    if data.len() < 4 {
        return None;
    }
    let len = read_u32_le(data, 0) as usize;
    if data.len() - 4 < len {
        return None;
    }
    let total_len: usize = 4 + len;
    let body = vstd::slice::slice_subrange(data, 4, total_len);
    match DzrpMessage::parse(body) {
        Some(msg) => {
            assert(msg.payload@ =~= data@.subrange(6, total_len as int));
            Some((msg, total_len))
        },
        None => None,
    }
}

impl DzrpSession {
    /// A session with no breakpoints, handing out ids from 1.
    pub fn new() -> (s: Self)
        ensures
            s.breakpoint_ids@ == Map::<u32, u16>::empty(),
            s.next_bp_id == 1,
            s.last_pc == 0,
            s.pending_pause is None,
    {
        DzrpSession {
            breakpoint_ids: HashMap::new(),
            next_bp_id: 1,
            last_pc: 0,
            pending_pause: None,
        }
    }

    /// Decides what to do for a request, and records a breakpoint that it
    /// adds or removes.
    pub fn plan(&mut self, msg: &DzrpMessage) -> (plan: RequestPlan)
        ensures
            commands_for(plan.commands@, msg.cmd_id, msg.payload@),
            plan.wait == wait_for(msg.cmd_id, msg.payload@),
            reply_for(plan.reply, msg.cmd_id, msg.payload@, old(self).next_bp_id),
            plan.close == (msg.cmd_id == CMD_CLOSE),
            final(self).last_pc == old(self).last_pc,
            final(self).pending_pause == old(self).pending_pause,
            final(self).next_bp_id == if msg.cmd_id == CMD_ADD_BREAKPOINT {
                (if old(self).next_bp_id == u16::MAX {
                    0
                } else {
                    old(self).next_bp_id + 1
                }) as u16
            } else {
                old(self).next_bp_id
            },
            final(self).breakpoint_ids@ == if msg.cmd_id == CMD_ADD_BREAKPOINT
                && msg.payload@.len() >= 7 {
                old(self).breakpoint_ids@.insert(
                    le_field(msg.payload@, 4, 3) as u32,
                    requested_bp_id(msg.payload@, old(self).next_bp_id),
                )
            } else if msg.cmd_id == CMD_REMOVE_BREAKPOINT && msg.payload@.len() >= 3 {
                old(self).breakpoint_ids@.remove(le_field(msg.payload@, 0, 3) as u32)
            } else {
                old(self).breakpoint_ids@
            },
    {
        let p = msg.payload.as_slice();
        let id = msg.cmd_id;
        let close = id == CMD_CLOSE;
        if id == CMD_INIT {
            return RequestPlan {
                commands: Vec::new(),
                wait: Wait::Nothing,
                reply: Reply::Fixed(create_init_response()),
                close,
            };
        }
        if id == CMD_LOOPBACK {
            let echo = crate::bytes::copy_range(p, 0, p.len());
            assert(echo@ =~= msg.payload@);
            return RequestPlan { commands: Vec::new(), wait: Wait::Nothing, reply: Reply::Fixed(echo), close };
        }
        if id == CMD_PAUSE {
            let mut commands: Vec<DebugCmd> = Vec::new();
            commands.push(DebugCmd::Pause(PauseReason::DebuggerRequested));
            commands.push(DebugCmd::GetState);
            assert(commands@ =~= seq![
                DebugCmd::Pause(PauseReason::DebuggerRequested),
                DebugCmd::GetState,
            ]);
            return RequestPlan { commands, wait: Wait::Nothing, reply: Reply::Fixed(Vec::new()), close };
        }
        let commands: Vec<DebugCmd> = match dzrp_to_debug_cmd(msg) {
            Some(v) => v,
            None => Vec::new(),
        };
        if id == CMD_ADD_BREAKPOINT {
            let bp_id: u16 = if p.len() >= 2 {
                read_u16_le(p, 0)
            } else {
                self.next_bp_id
            };
            self.next_bp_id = self.next_bp_id.wrapping_add(1);
            if p.len() < 7 {
                let mut err: Vec<u8> = Vec::new();
                err.push(1);
                assert(err@ =~= seq![1u8]);
                return RequestPlan { commands, wait: Wait::Nothing, reply: Reply::Fixed(err), close };
            }
            let address = read_u24_le(p, 4);
            self.breakpoint_ids.insert(address, bp_id);
            let mut ack: Vec<u8> = Vec::new();
            ack.push(0);
            write_u16_le(&mut ack, bp_id);
            assert(ack@ =~= seq![0u8] + le16_bytes(bp_id as nat));
            return RequestPlan { commands, wait: Wait::Pong, reply: Reply::Fixed(ack), close };
        }
        if id == CMD_REMOVE_BREAKPOINT && p.len() >= 3 {
            let address = read_u24_le(p, 0);
            self.breakpoint_ids.remove(&address);
            return RequestPlan { commands, wait: Wait::Pong, reply: Reply::Fixed(Vec::new()), close };
        }
        let wait = if id == CMD_GET_REGISTERS || id == CMD_CONTINUE || id == CMD_STEP_INTO || id
            == CMD_STEP_OVER || (id == CMD_READ_MEM && p.len() >= 5) {
            Wait::Response
        } else if (id == CMD_SET_REGISTER || id == CMD_WRITE_MEM) && p.len() >= 3 {
            Wait::Pong
        } else {
            Wait::Nothing
        };
        let reply = if id == CMD_GET_REGISTERS || (id == CMD_READ_MEM && p.len() >= 5) {
            Reply::FromDebugger
        } else {
            Reply::Fixed(Vec::new())
        };
        RequestPlan { commands, wait, reply, close }
    }

    /// Takes note of a debugger response. A pause is held until the state
    /// report that follows it (a breakpoint trigger pauses, then reports the
    /// state) and then relayed with that report's PC; a state report also
    /// sets the last known PC. A second pause before any report relays the
    /// first one with the last known PC.
    pub fn observe(&mut self, resp: &DebugResp) -> (ntf: Option<Vec<u8>>)
        ensures
            final(self).breakpoint_ids@ == old(self).breakpoint_ids@,
            final(self).next_bp_id == old(self).next_bp_id,
            final(self).last_pc == match *resp {
                DebugResp::State { registers } => registers.pc,
                _ => old(self).last_pc,
            },
            final(self).pending_pause == match *resp {
                DebugResp::Paused(reason) => Some(reason),
                DebugResp::State { .. } => None,
                _ => old(self).pending_pause,
            },
            match (*resp, old(self).pending_pause) {
                (DebugResp::Paused(_), Some(p)) => ntf matches Some(v) && v@ == pause_notification(
                    p,
                    old(self).last_pc,
                ),
                (DebugResp::State { registers }, Some(p)) => ntf matches Some(v) && v@
                    == pause_notification(p, registers.pc),
                _ => ntf is None,
            },
    {
        match resp {
            DebugResp::State { registers } => {
                self.last_pc = registers.pc;
                self.take_pending_pause()
            },
            DebugResp::Paused(reason) => {
                let earlier = self.take_pending_pause();
                self.pending_pause = Some(*reason);
                earlier
            },
            _ => None,
        }
    }

    /// Relays a held pause with the last known PC, for when no state report
    /// follows it.
    pub fn take_pending_pause(&mut self) -> (ntf: Option<Vec<u8>>)
        ensures
            final(self).breakpoint_ids@ == old(self).breakpoint_ids@,
            final(self).next_bp_id == old(self).next_bp_id,
            final(self).last_pc == old(self).last_pc,
            final(self).pending_pause is None,
            match old(self).pending_pause {
                Some(p) => ntf matches Some(v) && v@ == pause_notification(p, old(self).last_pc),
                None => ntf is None,
            },
    {
        match self.pending_pause.take() {
            Some(reason) => {
                let payload = pause_to_notification_payload(&reason, self.last_pc);
                Some(create_notification(NTF_PAUSE, payload.as_slice()))
            },
            None => None,
        }
    }
}

/// Whether a command id is one of the requests the bridge understands:
/// INIT, CLOSE, GET_REGISTERS, SET_REGISTER, CONTINUE, PAUSE, READ_MEM,
/// WRITE_MEM, STEP_INTO, STEP_OVER, ADD_BREAKPOINT, REMOVE_BREAKPOINT and
/// LOOPBACK. Any other id gets an empty success response.
pub fn is_supported_command(cmd_id: u8) -> (r: bool)
    ensures
        r == (cmd_id == CMD_INIT || cmd_id == CMD_CLOSE || cmd_id == CMD_GET_REGISTERS || cmd_id
            == CMD_SET_REGISTER || cmd_id == CMD_CONTINUE || cmd_id == CMD_PAUSE || cmd_id
            == CMD_READ_MEM || cmd_id == CMD_WRITE_MEM || cmd_id == CMD_STEP_INTO || cmd_id
            == CMD_STEP_OVER || cmd_id == CMD_ADD_BREAKPOINT || cmd_id == CMD_REMOVE_BREAKPOINT
            || cmd_id == CMD_LOOPBACK),
{
    cmd_id == CMD_INIT || cmd_id == CMD_CLOSE || cmd_id == CMD_GET_REGISTERS || cmd_id
        == CMD_SET_REGISTER || cmd_id == CMD_CONTINUE || cmd_id == CMD_PAUSE || cmd_id
        == CMD_READ_MEM || cmd_id == CMD_WRITE_MEM || cmd_id == CMD_STEP_INTO || cmd_id
        == CMD_STEP_OVER || cmd_id == CMD_ADD_BREAKPOINT || cmd_id == CMD_REMOVE_BREAKPOINT
        || cmd_id == CMD_LOOPBACK
}

/// Whether a debugger response ends a wait: any response for `Nothing`, an
/// acknowledgement for `Pong`, and anything but a pause for `Response`.
pub fn ends_wait(wait: Wait, resp: &DebugResp) -> (r: bool)
    ensures
        r == ends_wait_spec(wait, *resp),
{
    match wait {
        Wait::Nothing => true,
        Wait::Pong => matches!(resp, DebugResp::Pong),
        Wait::Response => !matches!(resp, DebugResp::Paused(_)),
    }
}

/// The response envelope for a request, given how its reply is made and the
/// debugger response that ended the wait (`None` on timeout or when there
/// was no wait).
pub fn respond(msg: &DzrpMessage, reply: &Reply, resp: Option<&DebugResp>) -> (r: Vec<u8>)
    requires
        reply matches Reply::Fixed(v) ==> fits_envelope(v@),
        resp matches Some(d) ==> (d matches DebugResp::Memory { data, .. } ==> fits_envelope(data@)),
    ensures
        r@ == response_bytes(
            msg.seq_num,
            reply_payload(
                *reply,
                match resp {
                    Some(d) => Some(*d),
                    None => None,
                },
            ),
        ),
{
    let payload: Vec<u8> = match reply {
        Reply::Fixed(v) => crate::bytes::copy_range(v.as_slice(), 0, v.len()),
        Reply::FromDebugger => match resp {
            Some(d) => match debug_resp_to_dzrp(d) {
                Some(v) => v,
                None => Vec::new(),
            },
            None => Vec::new(),
        },
    };
    assert(payload@ =~= reply_payload(
        *reply,
        match resp {
            Some(d) => Some(*d),
            None => None,
        },
    ));
    msg.response(payload)
}

} // verus!
