//! Core of a small cooperative, single-address-space kernel: an event bridge
//! that carries decoded key presses from interrupt context to task context, a
//! round-robin cooperative executor, an in-memory hierarchical filesystem with
//! per-node ownership, a credential store, and the shell state machine that
//! ties them together.

pub mod auth;
pub mod bridge;
pub mod executor;
pub mod fs;
pub mod interrupts;
pub mod keyboard;
pub mod mouse;
pub mod rtc;
pub mod serial;
pub mod shell;
pub mod strutil;
pub mod task;
pub mod vga_buffer;
