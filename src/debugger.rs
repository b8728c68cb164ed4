//! The emulator debugger's command and response channel, as plain values.
//!
//! The debugger runs beside the CPU and talks over two channels: commands go
//! in, responses come out. These types hold what the protocol bridge reads
//! and writes on those channels.

use vstd::prelude::*;

verus! {

/// Why the CPU paused.
#[derive(Debug, Clone, Copy, PartialEq, Eq, Structural)]
pub enum PauseReason {
    /// The debugger asked for the pause.
    DebuggerRequested,
    /// A breakpoint trigger fired.
    DebuggerBreakpoint,
    /// An I/O port breakpoint fired.
    IOBreakpoint(u16),
    /// The CPU touched memory outside the map.
    OutOfBoundsMemAccess(u32),
}

/// A snapshot of the CPU registers.
///
/// Register pairs that are 24 bits wide in ADL mode hold their full value in
/// a `u32`; the stack pointer is kept as its long (`spl`) and short (`sps`)
/// forms, with the memory base byte `mbase` that extends the short one.
#[derive(Debug, Clone, Copy, PartialEq, Eq, Structural)]
pub struct Registers {
    pub pc: u32,
    pub spl: u32,
    pub sps: u16,
    pub mbase: u8,
    pub af: u16,
    pub bc: u32,
    pub de: u32,
    pub hl: u32,
    pub ix: u32,
    pub iy: u32,
    pub i: u8,
    pub r: u8,
    pub adl: bool,
}

/// A rule bound to a CPU address: when the CPU reaches it, the actions run.
#[derive(Debug, Clone)]
pub struct Trigger {
    pub address: u32,
    pub once: bool,
    pub actions: Vec<TriggerAction>,
}

/// What a trigger does when it fires.
#[derive(Debug, Clone, Copy, PartialEq, Eq, Structural)]
pub enum TriggerAction {
    /// Pause the CPU for the given reason.
    Pause(PauseReason),
    /// Report the full CPU state.
    GetState,
}

/// A command sent to the debugger.
#[derive(Debug, Clone)]
pub enum DebugCmd {
    GetRegisters,
    SetRegister { reg_index: u8, value: u32 },
    Continue,
    Pause(PauseReason),
    GetMemory { start: u32, len: u32 },
    WriteMemory { start: u32, data: Vec<u8> },
    Step,
    StepOver,
    AddTrigger(Trigger),
    DeleteTrigger(u32),
    GetState,
}

/// A response from the debugger.
#[derive(Debug, Clone)]
pub enum DebugResp {
    /// Acknowledgement of a command that returns nothing.
    Pong,
    /// The CPU runs again.
    Resumed,
    Registers(Registers),
    Memory { start: u32, data: Vec<u8> },
    /// Full state after a stop, with the registers at that point.
    State { registers: Registers },
    Paused(PauseReason),
    /// Free text from the debugger.
    Message(String),
}

} // verus!
