//! JTAG is a non-goal of this probe: the capability is never
//! advertised and the engine never reaches a JTAG command.

use vstd::prelude::*;

verus! {

/// The absent JTAG port.
pub struct Jtag {}

impl Jtag {
    /// JTAG is never available on this probe.
    pub fn available() -> (b: bool)
        ensures
            !b,
    {
        false
    }
}

} // verus!
