//! Translation between DZRP requests and debugger commands and responses.

use vstd::prelude::*;

use crate::bytes::copy_range;
use crate::debugger::{DebugCmd, DebugResp, PauseReason, Registers, Trigger, TriggerAction};
use crate::dzrp::{
    le16_bytes, le24_bytes, le_field, read_u16_le, read_u24_le, write_u16_le, write_u24_le,
    DzrpMessage, BREAK_REASON_BREAKPOINT, BREAK_REASON_MANUAL, BREAK_REASON_OTHER, CMD_ADD_BREAKPOINT,
    CMD_CONTINUE, CMD_GET_REGISTERS, CMD_PAUSE, CMD_READ_MEM, CMD_REMOVE_BREAKPOINT,
    CMD_SET_REGISTER, CMD_STEP_INTO, CMD_STEP_OVER, CMD_WRITE_MEM,
};

verus! {

/// Size of the register blob sent to the IDE.
pub const REG_SIZE: usize = 38;

pub const REG_PC: u8 = 0;
pub const REG_SP: u8 = 1;
pub const REG_AF: u8 = 2;
pub const REG_BC: u8 = 3;
pub const REG_DE: u8 = 4;
pub const REG_HL: u8 = 5;
pub const REG_IX: u8 = 6;
pub const REG_IY: u8 = 7;
pub const REG_AF2: u8 = 8;
pub const REG_BC2: u8 = 9;
pub const REG_DE2: u8 = 10;
pub const REG_HL2: u8 = 11;
pub const REG_I: u8 = 12;
pub const REG_R: u8 = 13;
pub const REG_IM: u8 = 14;

/// Whether `c` is the trigger of a breakpoint at `address`: it pauses the CPU
/// as a breakpoint, then reports the state.
pub open spec fn is_breakpoint_trigger(t: Trigger, address: u32) -> bool {
    &&& t.address == address
    &&& !t.once
    &&& t.actions@ == seq![
        TriggerAction::Pause(PauseReason::DebuggerBreakpoint),
        TriggerAction::GetState,
    ]
}

/// The trigger that a breakpoint at `address` installs.
pub fn breakpoint_trigger(address: u32) -> (t: Trigger)
    ensures
        is_breakpoint_trigger(t, address),
{
    let mut actions: Vec<TriggerAction> = Vec::new();
    actions.push(TriggerAction::Pause(PauseReason::DebuggerBreakpoint));
    actions.push(TriggerAction::GetState);
    let t = Trigger { address, once: false, actions };
    assert(t.actions@ =~= seq![
        TriggerAction::Pause(PauseReason::DebuggerBreakpoint),
        TriggerAction::GetState,
    ]);
    t
}

/// Whether the request `cmd_id` with `payload` maps to one debugger command.
pub open spec fn has_debug_cmd(cmd_id: u8, p: Seq<u8>) -> bool {
    if cmd_id == CMD_GET_REGISTERS || cmd_id == CMD_CONTINUE || cmd_id == CMD_PAUSE || cmd_id
        == CMD_STEP_INTO || cmd_id == CMD_STEP_OVER {
        true
    } else if cmd_id == CMD_SET_REGISTER || cmd_id == CMD_WRITE_MEM || cmd_id
        == CMD_REMOVE_BREAKPOINT {
        p.len() >= 3
    } else if cmd_id == CMD_READ_MEM {
        p.len() >= 5
    } else if cmd_id == CMD_ADD_BREAKPOINT {
        p.len() >= 7
    } else {
        false
    }
}

/// Whether `c` is the debugger command for request `cmd_id` with payload `p`.
pub open spec fn is_debug_cmd_for(c: DebugCmd, cmd_id: u8, p: Seq<u8>) -> bool {
    if cmd_id == CMD_GET_REGISTERS {
        c is GetRegisters
    } else if cmd_id == CMD_SET_REGISTER {
        c == DebugCmd::SetRegister {
            reg_index: p[0],
            value: if p.len() >= 4 {
                le_field(p, 1, 3) as u32
            } else {
                le_field(p, 1, 2) as u32
            },
        }
    } else if cmd_id == CMD_CONTINUE {
        c is Continue
    } else if cmd_id == CMD_PAUSE {
        c == DebugCmd::Pause(PauseReason::DebuggerRequested)
    } else if cmd_id == CMD_READ_MEM {
        c == DebugCmd::GetMemory { start: le_field(p, 0, 3) as u32, len: le_field(p, 3, 2) as u32 }
    } else if cmd_id == CMD_WRITE_MEM {
        c matches DebugCmd::WriteMemory { start, data } && start == le_field(p, 0, 3) && data@
            == p.skip(3)
    } else if cmd_id == CMD_STEP_INTO {
        c is Step
    } else if cmd_id == CMD_STEP_OVER {
        c is StepOver
    } else if cmd_id == CMD_ADD_BREAKPOINT {
        c matches DebugCmd::AddTrigger(t) && is_breakpoint_trigger(t, le_field(p, 4, 3) as u32)
    } else if cmd_id == CMD_REMOVE_BREAKPOINT {
        c == DebugCmd::DeleteTrigger(le_field(p, 0, 3) as u32)
    } else {
        false
    }
}

/// The debugger commands for a request, or `None` when the request needs no
/// debugger command (it is answered directly, unsupported, or too short).
pub fn dzrp_to_debug_cmd(msg: &DzrpMessage) -> (r: Option<Vec<DebugCmd>>)
    ensures
        r is Some <==> has_debug_cmd(msg.cmd_id, msg.payload@),
        r matches Some(v) ==> v@.len() == 1 && is_debug_cmd_for(
            v@[0],
            msg.cmd_id,
            msg.payload@,
        ),
{
    let p = msg.payload.as_slice();
    let n = p.len();
    let cmd: DebugCmd = if msg.cmd_id == CMD_GET_REGISTERS {
        DebugCmd::GetRegisters
    } else if msg.cmd_id == CMD_SET_REGISTER {
        if n < 3 {
            return None;
        }
        let value: u32 = if n >= 4 {
            read_u24_le(p, 1)
        } else {
            read_u16_le(p, 1) as u32
        };
        DebugCmd::SetRegister { reg_index: p[0], value }
    } else if msg.cmd_id == CMD_CONTINUE {
        DebugCmd::Continue
    } else if msg.cmd_id == CMD_PAUSE {
        DebugCmd::Pause(PauseReason::DebuggerRequested)
    } else if msg.cmd_id == CMD_READ_MEM {
        if n < 5 {
            return None;
        }
        let start = read_u24_le(p, 0);
        let len = read_u16_le(p, 3) as u32;
        DebugCmd::GetMemory { start, len }
    } else if msg.cmd_id == CMD_WRITE_MEM {
        if n < 3 {
            return None;
        }
        let start = read_u24_le(p, 0);
        let data = copy_range(p, 3, n);
        DebugCmd::WriteMemory { start, data }
    } else if msg.cmd_id == CMD_STEP_INTO {
        DebugCmd::Step
    } else if msg.cmd_id == CMD_STEP_OVER {
        DebugCmd::StepOver
    } else if msg.cmd_id == CMD_ADD_BREAKPOINT {
        if n < 7 {
            return None;
        }
        let address = read_u24_le(p, 4);
        DebugCmd::AddTrigger(breakpoint_trigger(address))
    } else if msg.cmd_id == CMD_REMOVE_BREAKPOINT {
        if n < 3 {
            return None;
        }
        DebugCmd::DeleteTrigger(read_u24_le(p, 0))
    } else {
        return None;
    };
    let mut v: Vec<DebugCmd> = Vec::new();
    v.push(cmd);
    Some(v)
}

/// The stack pointer as the IDE sees it: the long form in ADL mode, else the
/// short form placed in the bank that the memory base byte selects.
pub open spec fn stack_pointer(reg: Registers) -> nat {
    if reg.adl {
        reg.spl as nat
    } else {
        (reg.mbase as nat) * 65536 + (reg.sps as nat)
    }
}

/// The 38-byte register blob: PC, SP, AF, BC, DE, HL, IX, IY, AF', BC', DE',
/// HL', I, R, IM, ADL. The alternate registers and the interrupt mode are not
/// known to the debugger and are sent as zero.
pub open spec fn register_blob(reg: Registers) -> Seq<u8> {
    le24_bytes(reg.pc as nat) + le24_bytes(stack_pointer(reg)) + le16_bytes(reg.af as nat)
        + le24_bytes(reg.bc as nat) + le24_bytes(reg.de as nat) + le24_bytes(reg.hl as nat)
        + le24_bytes(reg.ix as nat) + le24_bytes(reg.iy as nat) + le16_bytes(0) + le24_bytes(0)
        + le24_bytes(0) + le24_bytes(0) + seq![reg.i, reg.r, 0u8, if reg.adl { 1u8 } else { 0u8 }]
}

/// Encodes the registers into the blob the IDE expects.
pub fn registers_to_dzrp(reg: &Registers) -> (r: Vec<u8>)
    ensures
        r@ == register_blob(*reg),
        r@.len() == REG_SIZE,
{
    let mut data: Vec<u8> = Vec::with_capacity(REG_SIZE);
    write_u24_le(&mut data, reg.pc);
    let sp: u32 = if reg.adl {
        reg.spl
    } else {
        (reg.mbase as u32) * 65536 + (reg.sps as u32)
    };
    write_u24_le(&mut data, sp);
    write_u16_le(&mut data, reg.af);
    write_u24_le(&mut data, reg.bc);
    write_u24_le(&mut data, reg.de);
    write_u24_le(&mut data, reg.hl);
    write_u24_le(&mut data, reg.ix);
    write_u24_le(&mut data, reg.iy);
    write_u16_le(&mut data, 0);
    write_u24_le(&mut data, 0);
    write_u24_le(&mut data, 0);
    write_u24_le(&mut data, 0);
    data.push(reg.i);
    data.push(reg.r);
    data.push(0);
    data.push(if reg.adl { 1 } else { 0 });
    assert(data@ =~= register_blob(*reg));
    data
}

/// The break reason byte of a pause.
pub open spec fn break_reason(reason: PauseReason) -> u8 {
    match reason {
        PauseReason::DebuggerRequested => BREAK_REASON_MANUAL,
        PauseReason::DebuggerBreakpoint => BREAK_REASON_BREAKPOINT,
        PauseReason::IOBreakpoint(_) => BREAK_REASON_OTHER,
        PauseReason::OutOfBoundsMemAccess(_) => BREAK_REASON_OTHER,
    }
}

/// The payload of a pause notification: the break reason, then the PC.
pub open spec fn pause_payload(reason: PauseReason, pc: u32) -> Seq<u8> {
    seq![break_reason(reason)] + le24_bytes(pc as nat)
}

/// Builds the payload of a pause notification.
pub fn pause_to_notification_payload(reason: &PauseReason, pc: u32) -> (r: Vec<u8>)
    ensures
        r@ == pause_payload(*reason, pc),
{
    let mut payload: Vec<u8> = Vec::with_capacity(4);
    let reason_byte: u8 = match reason {
        PauseReason::DebuggerRequested => BREAK_REASON_MANUAL,
        PauseReason::DebuggerBreakpoint => BREAK_REASON_BREAKPOINT,
        PauseReason::IOBreakpoint(_) => BREAK_REASON_OTHER,
        PauseReason::OutOfBoundsMemAccess(_) => BREAK_REASON_OTHER,
    };
    payload.push(reason_byte);
    write_u24_le(&mut payload, pc);
    assert(payload@ =~= pause_payload(*reason, pc));
    payload
}

/// The response payload that a debugger response gives, if any.
pub open spec fn resp_payload(resp: DebugResp) -> Option<Seq<u8>> {
    match resp {
        DebugResp::Pong => Some(Seq::empty()),
        DebugResp::Resumed => Some(Seq::empty()),
        DebugResp::Registers(reg) => Some(register_blob(reg)),
        DebugResp::Memory { data, .. } => Some(data@),
        DebugResp::State { registers } => Some(register_blob(registers)),
        DebugResp::Paused(reason) => Some(pause_payload(reason, 0)),
        DebugResp::Message(_) => None,
    }
}

/// Converts a debugger response into a DZRP response payload.
pub fn debug_resp_to_dzrp(resp: &DebugResp) -> (r: Option<Vec<u8>>)
    ensures
        match r {
            Some(v) => resp_payload(*resp) == Some(v@),
            None => resp_payload(*resp) is None,
        },
{
    match resp {
        DebugResp::Pong => Some(Vec::new()),
        DebugResp::Resumed => Some(Vec::new()),
        DebugResp::Registers(reg) => Some(registers_to_dzrp(reg)),
        DebugResp::Memory { data, .. } => Some(copy_range(data.as_slice(), 0, data.len())),
        DebugResp::State { registers } => Some(registers_to_dzrp(registers)),
        DebugResp::Paused(reason) => Some(pause_to_notification_payload(reason, 0)),
        DebugResp::Message(_) => None,
    }
}

/// The payload of the INIT response: no error, DZRP major version 2, the
/// machine name `eZ80` with its length, and 255 breakpoints available.
pub open spec fn init_response_bytes() -> Seq<u8> {
    seq![0u8, 2u8, 4u8, 0x65u8, 0x5Au8, 0x38u8, 0x30u8] + le16_bytes(255)
}

/// Builds the payload of the INIT response.
pub fn create_init_response() -> (r: Vec<u8>)
    ensures
        r@ == init_response_bytes(),
{
    let mut payload: Vec<u8> = Vec::new();
    // Error code: success.
    payload.push(0);
    // DZRP major version.
    payload.push(2);
    // Machine name "eZ80", prefixed by its length.
    payload.push(4);
    payload.push(0x65);
    payload.push(0x5A);
    payload.push(0x38);
    payload.push(0x30);
    // Number of breakpoints available.
    write_u16_le(&mut payload, 255);
    assert(payload@ =~= init_response_bytes());
    payload
}

} // verus!
