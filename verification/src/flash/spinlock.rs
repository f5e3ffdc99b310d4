//! The cross-core spinlock that serialises flash work and debug
//! sessions.
//!
//! The platform's flash driver pauses the other core through a private
//! mechanism while it touches flash; a debug session can halt a core
//! at any instant.  If both happen at the wrong moment, each core waits
//! on the other forever.  Both activities therefore claim this one
//! dedicated lock first.  The struct models the hardware lock
//! register's state: claiming reads it, releasing writes it.

use vstd::prelude::*;

verus! {

/// Numbered hardware spinlocks this firmware may model.  The numbering
/// must avoid every lock the platform's own drivers use internally.
pub trait SpinlockValid {

}

/// The state of one numbered hardware spinlock register.
pub struct Spinlock<const N: usize> {
    pub held: bool,
}

/// The one lock number reserved for the flash-versus-debug handshake.
pub type Spinlock30 = Spinlock<30>;

impl SpinlockValid for Spinlock<30> {

}

impl<const N: usize> Spinlock<N> where Spinlock<N>: SpinlockValid {
    /// A lock starts free.
    pub fn new() -> (r: Spinlock<N>)
        ensures
            !r.held,
    {
        Spinlock { held: false }
    }

    /// Try to claim the lock: succeeds exactly when nobody holds it,
    /// and at most one holder ever exists.
    pub fn try_claim(&mut self) -> (claimed: bool)
        ensures
            claimed == !old(self).held,
            final(self).held,
    {
        if self.held {
            false
        } else {
            self.held = true;
            true
        }
    }

    /// Release the lock.  Only the holder may do this.
    pub fn release(&mut self)
        requires
            old(self).held,
        ensures
            !final(self).held,
    {
        self.held = false;
    }
}

} // verus!
