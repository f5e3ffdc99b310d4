//! The shared request record between the two cores.
//!
//! The producer fills `regs` and then sets `what`; the consumer reads
//! `what`, acts, and clears it.  `regs` is only meaningful while `what`
//! is set.  The ghost counters witness that every posted request is
//! consumed exactly once: production and consumption counts differ by
//! exactly the one in-flight request.

use vstd::prelude::*;

verus! {

/// Which flash operation the probed core requests.
#[derive(Clone, Copy, PartialEq, Eq, Structural, Debug)]
pub enum IpcWhat {
    Init,
    Deinit,
    Program,
    Erase,
}

/// The non-zero tag byte of each request kind.
pub open spec fn spec_what_code(w: IpcWhat) -> int {
    match w {
        IpcWhat::Init => 1,
        IpcWhat::Deinit => 2,
        IpcWhat::Program => 3,
        IpcWhat::Erase => 4,
    }
}

impl IpcWhat {
    pub fn code(self) -> (c: u8)
        ensures
            c as int == spec_what_code(self),
    {
        match self {
            IpcWhat::Init => 1,
            IpcWhat::Deinit => 2,
            IpcWhat::Program => 3,
            IpcWhat::Erase => 4,
        }
    }
}

/// The fixed-address shared record: a tag byte and three argument
/// words.
pub struct Ipc {
    pub what: u8,
    pub regs: [usize; 3],
    pub produced: Ghost<int>,
    pub consumed: Ghost<int>,
}

impl Ipc {
    /// Every posted request is consumed exactly once: the counts
    /// differ by exactly the one request in flight.
    pub open spec fn inv(&self) -> bool {
        self.produced@ == self.consumed@ + if self.what == 0 {
            0int
        } else {
            1int
        }
    }

    pub fn new() -> (r: Ipc)
        ensures
            r.what == 0,
            r.regs@ == seq![0usize, 0usize, 0usize],
            r.produced@ == 0,
            r.consumed@ == 0,
            r.inv(),
    {
        let r = Ipc { what: 0, regs: [0, 0, 0], produced: Ghost(0), consumed: Ghost(0) };
        proof {
            assert(r.regs@ =~= seq![0usize, 0usize, 0usize]);
        }
        r
    }

    /// Decode the tag: no request, a known request, or an unknown
    /// non-zero tag.
    pub fn read_what(&self) -> (r: Result<Option<IpcWhat>, u8>)
        ensures
            self.what == 0 ==> r == Ok::<Option<IpcWhat>, u8>(None),
            self.what == 1 ==> r == Ok::<Option<IpcWhat>, u8>(Some(IpcWhat::Init)),
            self.what == 2 ==> r == Ok::<Option<IpcWhat>, u8>(Some(IpcWhat::Deinit)),
            self.what == 3 ==> r == Ok::<Option<IpcWhat>, u8>(Some(IpcWhat::Program)),
            self.what == 4 ==> r == Ok::<Option<IpcWhat>, u8>(Some(IpcWhat::Erase)),
            self.what > 4 ==> r == Err::<Option<IpcWhat>, u8>(self.what),
    {
        match self.what {
            0 => Ok(None),
            1 => Ok(Some(IpcWhat::Init)),
            2 => Ok(Some(IpcWhat::Deinit)),
            3 => Ok(Some(IpcWhat::Program)),
            4 => Ok(Some(IpcWhat::Erase)),
            w => Err(w),
        }
    }

    /// Post a request: the arguments are written before the tag
    /// signals them.  A record still holding an unconsumed request is
    /// left untouched.
    pub fn post(&mut self, what: IpcWhat, regs: [usize; 3]) -> (posted: bool)
        requires
            old(self).inv(),
        ensures
            final(self).inv(),
            posted == (old(self).what == 0),
            posted ==> {
                &&& final(self).what as int == spec_what_code(what)
                &&& final(self).regs == regs
                &&& final(self).produced@ == old(self).produced@ + 1
                &&& final(self).consumed@ == old(self).consumed@
            },
            !posted ==> *final(self) == *old(self),
    {
        if self.what != 0 {
            return false;
        }
        self.regs = regs;
        self.what = what.code();
        proof {
            self.produced@ = self.produced@ + 1;
        }
        true
    }

    /// Whether the request has been acknowledged; the trampoline spins
    /// on this after posting.
    pub fn done(&self) -> (r: bool)
        ensures
            r == (self.what == 0),
    {
        self.what == 0
    }
}

} // verus!
