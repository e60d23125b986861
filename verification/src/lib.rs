//! The synchronisation core of a radio link over a serial line.
//!
//! Bytes arrive in an interrupt handler, are gathered into frames in a buffer
//! that the handler shares with a parsing task of lower priority, and are
//! taken out by that task to be decoded. On the way out, a state machine
//! hands the radio its configuration commands one by one, and a sender
//! writes each command to the line as the line becomes ready.
//!
//! The crate holds the decisions, not the devices. Reading and writing the
//! serial line, scheduling tasks, arming timers and logging are left to the
//! program that uses it: it passes in bytes and flags and performs what
//! comes back. The lock is left to it as well: whoever holds `&mut Receiver`
//! holds the critical section.
//!
//! - [`frame_buffer`]: the byte buffer with its write cursor.
//! - [`receiver`]: the ingestion handler and the parsing task.
//! - [`sequencer`]: the command state machine.
//! - [`sender`]: the bytes of a command and when each is written.
//! - [`zero_scan`]: runs of bytes and their first zero byte.
//! - [`buffer_laws`], [`receiver_laws`], [`interleaving`], [`sender_laws`]:
//!   what is proved of them.

pub mod buffer_laws;
pub mod frame_buffer;
pub mod interleaving;
pub mod receiver;
pub mod receiver_laws;
pub mod sender;
pub mod sender_laws;
pub mod sequencer;
pub mod zero_scan;
