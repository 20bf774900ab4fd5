//! Host-side driver for an isolated electrical-conductivity (EC) probe that is
//! reached over a byte-addressable register bus.
//!
//! The driver maps every logical operation (measure, calibrate, configure,
//! EEPROM access) onto a fixed register address space: 32-bit IEEE-754 values
//! travel low byte first across four consecutive byte registers, firmware
//! actions are triggered by writing a task code to the task register, and every
//! bus transaction is followed by a fixed settle delay.
//!
//! The bus itself is abstracted by the [`bus::Transport`] trait, whose
//! contracts model the device as a passive register file together with a wire
//! log of every transaction issued.  [`sim::SimBus`] is an in-memory transport
//! verified against that model; an implementation over a real bus lives with
//! the embedding application.  Floating-point values are carried as their raw
//! IEEE-754 bit patterns (`u32`), which keeps the wire protocol bit-exact.

pub mod bus;
pub mod codec;
pub mod laws;
pub mod probe;
pub mod sim;

pub use bus::{BusError, BusEvent, Transport};
pub use probe::EcProbe;
pub use sim::SimBus;
