//! Register-level model of a PrimeCell-style UART serial device.
//!
//! The crate covers the register file with its receive FIFO, the state
//! machine that services guest register accesses and incoming bytes, and
//! the versioned checkpoint encoding with its post-restore reconciliation.

pub mod registers;
pub mod device;
pub mod vmstate;
pub mod fifo_laws;
