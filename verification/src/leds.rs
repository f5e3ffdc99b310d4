//! Status sinks for boards without meaningful indicators.
//!
//! The firmware variants all reduce host status handling to logging;
//! here each sink simply records the notifications it was handed, which
//! is what the engine's contracts speak about.

use vstd::prelude::*;

use crate::dap::command::HostStatus;

verus! {

/// The plain status sink of the single-probe board.
pub struct DapLeds {
    pub log: Ghost<Seq<HostStatus>>,
}

impl DapLeds {
    pub fn new() -> (r: DapLeds)
        ensures
            r.log@ == Seq::<HostStatus>::empty(),
    {
        DapLeds { log: Ghost(Seq::empty()) }
    }
}

impl crate::dap::command::DapLeds for DapLeds {
    open spec fn statuses(&self) -> Seq<HostStatus> {
        self.log@
    }

    fn react_to_host_status(&mut self, host_status: HostStatus) {
        proof {
            self.log@ = self.log@.push(host_status);
        }
    }
}

/// The status sink used by the transport-level probe wiring.
pub struct Leds {
    pub log: Ghost<Seq<HostStatus>>,
}

impl Leds {
    pub fn new() -> (r: Leds)
        ensures
            r.log@ == Seq::<HostStatus>::empty(),
    {
        Leds { log: Ghost(Seq::empty()) }
    }
}

impl crate::dap::command::DapLeds for Leds {
    open spec fn statuses(&self) -> Seq<HostStatus> {
        self.log@
    }

    fn react_to_host_status(&mut self, host_status: HostStatus) {
        proof {
            self.log@ = self.log@.push(host_status);
        }
    }
}

/// The fallback status sink of the debug socket.
pub struct DefaultDapLeds {
    pub log: Ghost<Seq<HostStatus>>,
}

impl DefaultDapLeds {
    pub fn new() -> (r: DefaultDapLeds)
        ensures
            r.log@ == Seq::<HostStatus>::empty(),
    {
        DefaultDapLeds { log: Ghost(Seq::empty()) }
    }
}

impl crate::dap::command::DapLeds for DefaultDapLeds {
    open spec fn statuses(&self) -> Seq<HostStatus> {
        self.log@
    }

    fn react_to_host_status(&mut self, host_status: HostStatus) {
        proof {
            self.log@ = self.log@.push(host_status);
        }
    }
}

} // verus!
