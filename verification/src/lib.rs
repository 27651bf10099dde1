//! Verified core of an FT2232D emulation firmware: the byte buffers of a
//! port, the decoding and execution of MPSSE commands, the vendor control
//! requests of the FTDI protocol and the clock and pin selection of the
//! JTAG hardware.

pub mod buffer;
pub mod hardware;
pub mod mpsse;
pub mod control;
pub mod ftdi;
