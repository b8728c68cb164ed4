//! Link fabric between an eZ80 emulator and its video display peer.
//!
//! The crate holds the frame codec used on every transport, the shared UART
//! state that survives reconnections, the decisions of the session pump, and
//! the DeZog remote protocol bridge to the emulator's debugger.

pub mod bytes;

// Frame codec and the eZ80/VDP session.
pub mod address;
pub mod messages;
pub mod pump;
pub mod uart;

// DeZog remote protocol bridge.
pub mod debugger;
pub mod dzrp;
pub mod session;
pub mod translator;

// Helpers for the programs around the link.
pub mod config;
pub mod hex;
