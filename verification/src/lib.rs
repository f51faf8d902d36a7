//! Core library of a keyboard-backlight daemon: configuration model and
//! validation, the brightness decision engine, the control-channel wire
//! protocol, and the daemon's state machine. All logic here is verified;
//! hardware access, signal probes and socket I/O live outside the library
//! and exchange plain values with it.

pub mod config;
pub mod daemon;
pub mod error;
pub mod ipc;
pub mod monitors;
pub mod power;
pub mod rules;
pub mod text;
pub mod wire;

pub use crate::error::Error;
