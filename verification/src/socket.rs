//! Configuration of the TCP socket that carries the probe protocol.
//!
//! The socket itself lives with the network stack outside this crate;
//! what the probe decides is which port to listen on and how long an
//! idle session may stall before it is torn down.

use vstd::prelude::*;

verus! {

/// The default protocol port.
pub const DEFAULT_PORT: u16 = 1234;

/// The default idle timeout, in milliseconds.
pub const DEFAULT_TIMEOUT_MS: u64 = 10_000;

/// Listener configuration for a debug session socket.
pub struct DebugSocket {
    pub port: u16,
    pub timeout_ms: Option<u64>,
}

impl DebugSocket {
    pub fn new() -> (r: DebugSocket)
        ensures
            r.port == DEFAULT_PORT,
            r.timeout_ms == Some(DEFAULT_TIMEOUT_MS),
    {
        DebugSocket { port: DEFAULT_PORT, timeout_ms: Some(DEFAULT_TIMEOUT_MS) }
    }

    /// Listen on a different port.
    pub fn port(&mut self, port: u16) -> (r: &mut DebugSocket)
        ensures
            *r == (DebugSocket { port, timeout_ms: old(self).timeout_ms }),
            *final(self) == *final(r),
    {
        self.port = port;
        self
    }

    /// Allow a different idle timeout.
    pub fn timeout(&mut self, timeout_ms: u64) -> (r: &mut DebugSocket)
        ensures
            *r == (DebugSocket { port: old(self).port, timeout_ms: Some(timeout_ms) }),
            *final(self) == *final(r),
    {
        self.timeout_ms = Some(timeout_ms);
        self
    }
}

} // verus!
