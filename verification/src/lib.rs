//! Driver core for a 600x448 seven-color bistable reflective panel.
//!
//! The panel is controlled through a narrow serial interface: every
//! operation is a strict, byte-exact sequence of command/data
//! transactions interleaved with busy-line waits.  This crate verifies
//! that protocol engine: each lifecycle operation's contract pins down
//! the exact transaction stream it emits, and what is emitted when the
//! bus fails partway through a sequence.

pub mod color;
pub mod command;
pub mod interface;

pub mod driver;
