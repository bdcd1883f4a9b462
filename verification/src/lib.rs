//! Driver core for the ESP-PSRAM64 and ESP-PSRAM64H serial pseudo SRAM devices.
//!
//! The devices hold 64 Mbit, organised as 8M x 8 bits, and are accessed over
//! SPI with a chip-select line. This crate holds the protocol of the driver:
//! command framing, chunking of writes, burst-length bookkeeping, parsing of
//! the identification record, and the order in which the chip-select line
//! and the bus are used. It performs no I/O itself: the driver asks for one
//! bus action at a time and is told how it went.
//!
//! Quad mode (QPI) is not implemented.
//!
//! * [`psram`] holds the driver and the values it is set up with.
//! * [`state`] holds the states of the driver and the step from one to the
//!   next.
//! * [`run`] says what whole operations ask of the bus.
//! * [`wire`] holds the command frames and the chunking of writes.
//! * [`echo`] holds a device that keeps what is written to it.
//! * [`error`] holds the error type.

pub mod echo;
pub mod error;
pub mod psram;
pub mod run;
pub mod state;
pub mod wire;

pub use crate::error::Error;
