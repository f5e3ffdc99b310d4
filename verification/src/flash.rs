//! The cross-core flash bridge.
//!
//! The probed core cannot drive the flash peripheral itself.  Instead a
//! relocatable trampoline posts requests into a fixed shared record and
//! waits; a polling routine on the probing core interprets the record,
//! performs the flash work, and acknowledges.  A dedicated hardware
//! spinlock keeps flash operations and debug-port sessions from
//! interleaving at the one instant where they could deadlock each
//! other.

pub mod algo;
pub mod ipc;
pub mod monitor;
pub mod spinlock;
