//! Debug-session status, fed from host status notifications.
//!
//! The socket loop needs to know when the host has connected and then
//! disconnected again, to end the session cleanly.  The flags are a
//! fold over the sequence of notifications received, which is what the
//! well-formedness invariant states.

use vstd::prelude::*;

use crate::dap::command::{DapLeds, HostStatus};

verus! {

/// The connected/disconnected flags a notification history produces:
/// a connect sets the first; a disconnect after a connect sets the
/// second; run-state notifications change nothing.
pub open spec fn spec_status_flags(s: Seq<HostStatus>) -> (bool, bool)
    decreases s.len(),
{
    if s.len() == 0 {
        (false, false)
    } else {
        let prev = spec_status_flags(s.drop_last());
        match s.last() {
            HostStatus::Connected(true) => (true, prev.1),
            HostStatus::Connected(false) => (prev.0, prev.1 || prev.0),
            HostStatus::Running(_) => prev,
        }
    }
}

/// Materialises the debug status of the device.
pub struct DebugStatus {
    pub connected: bool,
    pub disconnected: bool,
    pub log: Ghost<Seq<HostStatus>>,
}

impl DebugStatus {
    /// The flags are exactly the fold of the notification history.
    pub open spec fn wf(&self) -> bool {
        (self.connected, self.disconnected) == spec_status_flags(self.log@)
    }

    /// The host has signalled a connection and then subsequently a
    /// disconnection.
    pub fn disconnected(&self) -> (r: bool)
        ensures
            r == self.disconnected,
    {
        self.disconnected
    }

    /// The status acts as its own notification sink.
    pub fn dap_leds(&mut self) -> (r: &mut DebugStatus)
        ensures
            *r == *old(self),
            *final(self) == *final(r),
    {
        self
    }

    /// Record one host status notification.
    pub fn note_host_status(&mut self, host_status: HostStatus)
        ensures
            old(self).wf() ==> final(self).wf(),
            final(self).log@ == old(self).log@.push(host_status),
            final(self).connected == (old(self).connected || host_status == HostStatus::Connected(
                true,
            )),
            final(self).disconnected == (old(self).disconnected || (old(self).connected
                && host_status == HostStatus::Connected(false))),
    {
        proof {
            self.log@ = self.log@.push(host_status);
            assert(self.log@.drop_last() =~= old(self).log@);
        }
        match host_status {
            HostStatus::Connected(true) => {
                self.connected = true;
            },
            HostStatus::Connected(false) => {
                if self.connected {
                    self.disconnected = true;
                }
            },
            HostStatus::Running(_) => {},
        }
    }
}

impl Default for DebugStatus {
    /// No notification seen yet: both flags clear.
    fn default() -> (r: DebugStatus)
        ensures
            r.wf(),
            !r.connected,
            !r.disconnected,
            r.log@ == Seq::<HostStatus>::empty(),
    {
        DebugStatus { connected: false, disconnected: false, log: Ghost(Seq::empty()) }
    }
}

impl DapLeds for DebugStatus {
    open spec fn statuses(&self) -> Seq<HostStatus> {
        self.log@
    }

    fn react_to_host_status(&mut self, host_status: HostStatus)
        ensures
            old(self).wf() ==> final(self).wf(),
            final(self).connected == (old(self).connected || host_status == HostStatus::Connected(
                true,
            )),
            final(self).disconnected == (old(self).disconnected || (old(self).connected
                && host_status == HostStatus::Connected(false))),
    {
        self.note_host_status(host_status);
    }
}

} // verus!
