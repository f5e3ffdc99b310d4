//! Core of a self-hosted, network-reachable SWD debug probe.
//!
//! The crate verifies the three tightly coupled pieces of such a probe:
//! the CMSIS-DAP command engine with its connection state machine, the
//! bit-level SWD transport that implements the electrical protocol, and
//! the cross-core flash bridge that lets the probed core ask the probing
//! core for flash operations.  Everything that touches real hardware
//! (pin registers, the flash peripheral, sockets) sits behind small
//! traits or is handed back to the caller as a decision value.

pub mod bits;
pub mod boot_success;
pub mod dap;
pub mod dhcsr;
pub mod driver;
pub mod flash;
pub mod jtag;
pub mod leds;
pub mod sim;
pub mod socket;
pub mod state;
pub mod status;
pub mod swd;
pub mod swj;
pub mod transport;
