//! Marking the running firmware as good.
//!
//! After an update, the bootloader keeps the new image only once it is
//! marked booted.  The firmware does that the first time a debug host
//! actually connects: a confirmed connection proves the image works.
//! The marking call itself is flash bookkeeping outside this crate;
//! the decision of when to attempt it, and whether to retry, is here.

use vstd::prelude::*;

use crate::dap::command::HostStatus;

verus! {

/// Decides when to mark the running image as successfully booted.
pub struct BootSuccessMarker {
    pub marked: bool,
}

impl BootSuccessMarker {
    pub fn new() -> (r: BootSuccessMarker)
        ensures
            !r.marked,
    {
        BootSuccessMarker { marked: false }
    }

    /// Attempt the mark exactly when a host connection is confirmed
    /// and no earlier attempt has succeeded.
    pub fn should_mark(&self, status: HostStatus) -> (r: bool)
        ensures
            r == (!self.marked && status == HostStatus::Connected(true)),
    {
        if self.marked {
            return false;
        }
        match status {
            HostStatus::Connected(true) => true,
            _ => false,
        }
    }

    /// Record the outcome of a marking attempt; a failed attempt is
    /// retried on the next connection.
    pub fn record_attempt(&mut self, ok: bool)
        ensures
            final(self).marked == (old(self).marked || ok),
    {
        if ok {
            self.marked = true;
        }
    }
}

} // verus!
