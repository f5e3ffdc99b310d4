//! Transaction-level view of an SWD link.
//!
//! The command engine drives the wire through the [`SwdDriver`] trait,
//! staying generic over what actually carries the transactions.
//! A driver records the transactions it issued in a ghost log, and may
//! announce the outcomes of its next transactions (`future_outcomes`);
//! the bit-banged transport announces nothing (the wire decides), while
//! the scripted simulator announces its whole script, which is what lets
//! batch processing be verified end to end.

use vstd::prelude::*;

use crate::swd::{APnDP, DPRegister, SwdError, SwdResult};
use crate::swj::SwjDependencies;

verus! {

/// One SWD register transaction, as recorded in a driver's ghost log.
#[derive(Clone, Copy, PartialEq, Eq, Structural, Debug)]
pub enum Txn {
    Read { port: APnDP, addr: DPRegister },
    Write { port: APnDP, addr: DPRegister, data: u32 },
}

/// The outcome of one transaction, as a driver models it.
#[derive(Clone, Copy, PartialEq, Eq, Structural, Debug)]
pub enum TxnOutcome {
    /// OK acknowledge; the word is the data phase (ignored for writes).
    Done(u32),
    /// WAIT acknowledge.
    Wait,
    /// FAULT acknowledge.
    Fault,
    /// Malformed acknowledge.
    Protocol,
    /// OK acknowledge but the data parity check fails (reads only).
    CorruptParity,
}

/// The result a read transaction reports for a given outcome.
pub open spec fn read_of_outcome(o: TxnOutcome) -> SwdResult<u32> {
    match o {
        TxnOutcome::Done(w) => Ok(w),
        TxnOutcome::Wait => Err(SwdError::AckWait),
        TxnOutcome::Fault => Err(SwdError::AckFault),
        TxnOutcome::Protocol => Err(SwdError::AckUnknown),
        TxnOutcome::CorruptParity => Err(SwdError::BadParity),
    }
}

/// The result a write transaction reports for a given outcome.
pub open spec fn write_of_outcome(o: TxnOutcome) -> SwdResult<()> {
    match o {
        TxnOutcome::Done(_) => Ok(()),
        TxnOutcome::Wait => Err(SwdError::AckWait),
        TxnOutcome::Fault => Err(SwdError::AckFault),
        TxnOutcome::Protocol => Err(SwdError::AckUnknown),
        TxnOutcome::CorruptParity => Err(SwdError::BadParity),
    }
}

/// A register-level SWD link.  `DEPS` is the idle pin-control form the
/// link converts back into when the port leaves SWD mode.
pub trait SwdDriver<DEPS>: Sized where DEPS: SwjDependencies<Self> {
    /// Every transaction issued so far.
    spec fn txn_log(&self) -> Seq<Txn>;

    /// Whether this link can generate the given wire clock.
    spec fn clock_accepts(&self, max_frequency: u32) -> bool;

    /// Outcomes of the next transactions, where the driver knows them;
    /// a driver facing a real wire leaves this empty.
    spec fn future_outcomes(&self) -> Seq<TxnOutcome>;

    /// Whether SWD is available at all on this link.
    spec fn spec_available() -> bool;

    /// Runtime view of [`SwdDriver::spec_available`].
    fn available() -> (b: bool)
        ensures
            b == Self::spec_available(),
    ;

    /// One read transaction on the wire.
    fn read_inner(&mut self, apndp: APnDP, a: DPRegister) -> (r: SwdResult<u32>)
        ensures
            final(self).txn_log() == old(self).txn_log().push(Txn::Read { port: apndp, addr: a }),
            old(self).future_outcomes().len() > 0 ==> r == read_of_outcome(
                old(self).future_outcomes()[0],
            ) && final(self).future_outcomes() == old(self).future_outcomes().drop_first(),
            old(self).future_outcomes().len() == 0 ==> final(self).future_outcomes().len() == 0,
    ;

    /// One write transaction on the wire.
    fn write_inner(&mut self, apndp: APnDP, a: DPRegister, data: u32) -> (r: SwdResult<()>)
        ensures
            final(self).txn_log() == old(self).txn_log().push(
                Txn::Write { port: apndp, addr: a, data },
            ),
            old(self).future_outcomes().len() > 0 ==> r == write_of_outcome(
                old(self).future_outcomes()[0],
            ) && final(self).future_outcomes() == old(self).future_outcomes().drop_first(),
            old(self).future_outcomes().len() == 0 ==> final(self).future_outcomes().len() == 0,
    ;

    /// Negotiate the wire clock; returns whether the rate was accepted.
    fn set_clock(&mut self, max_frequency: u32) -> (ok: bool)
        ensures
            ok == old(self).clock_accepts(max_frequency),
            final(self).txn_log() == old(self).txn_log(),
            final(self).future_outcomes() == old(self).future_outcomes(),
    ;

    /// Convert the link back into the idle pin-control form that
    /// holds it: the same resource, reinterpreted, never dropped.
    fn into_deps(self) -> (r: DEPS)
        ensures
            r.holds(self),
    ;
}

/// Result of retrying a transaction while the target answers WAIT, with
/// at most `n` attempts in all; `outcomes` lists the per-attempt
/// outcomes.  With no attempt budget the caller reports WAIT directly.
pub open spec fn retry_result(outcomes: Seq<TxnOutcome>, n: int) -> TxnOutcome
    decreases n,
{
    if n <= 0 || outcomes.len() == 0 {
        TxnOutcome::Wait
    } else if outcomes[0] is Wait {
        retry_result(outcomes.drop_first(), n - 1)
    } else {
        outcomes[0]
    }
}

/// How many attempts the retry loop makes.
pub open spec fn retry_attempts(outcomes: Seq<TxnOutcome>, n: int) -> int
    decreases n,
{
    if n <= 0 || outcomes.len() == 0 {
        0
    } else if outcomes[0] is Wait {
        1 + retry_attempts(outcomes.drop_first(), n - 1)
    } else {
        1
    }
}

/// Read a register, retrying while the target answers WAIT.
pub fn swd_read<DEPS: SwjDependencies<S>, S: SwdDriver<DEPS>>(
    swd: &mut S,
    wait_retries: usize,
    port: APnDP,
    addr: DPRegister,
) -> (r: SwdResult<u32>)
    ensures
        old(swd).txn_log().len() <= final(swd).txn_log().len() <= old(swd).txn_log().len()
            + wait_retries,
        final(swd).txn_log().subrange(0, old(swd).txn_log().len() as int) == old(swd).txn_log(),
        forall|i: int|
            old(swd).txn_log().len() <= i < final(swd).txn_log().len() ==> final(swd).txn_log()[i]
                == (Txn::Read { port, addr }),
        old(swd).future_outcomes().len() >= wait_retries ==> {
            &&& r == read_of_outcome(retry_result(old(swd).future_outcomes(), wait_retries as int))
            &&& final(swd).future_outcomes() == old(swd).future_outcomes().skip(
                retry_attempts(old(swd).future_outcomes(), wait_retries as int),
            )
            &&& final(swd).txn_log().len() == old(swd).txn_log().len() + retry_attempts(
                old(swd).future_outcomes(),
                wait_retries as int,
            )
        },
{
    let ghost fo0 = old(swd).future_outcomes();
    let ghost log0 = old(swd).txn_log();
    proof {
        assert(fo0.skip(0) =~= fo0);
        assert(log0.subrange(0, log0.len() as int) =~= log0);
    }
    let mut tries: usize = 0;
    while tries < wait_retries
        invariant
            log0 == old(swd).txn_log(),
            fo0 == old(swd).future_outcomes(),
            tries <= wait_retries,
            log0.len() <= swd.txn_log().len() <= log0.len() + tries,
            swd.txn_log().subrange(0, log0.len() as int) == log0,
            forall|i: int|
                log0.len() <= i < swd.txn_log().len() ==> swd.txn_log()[i] == (Txn::Read {
                    port,
                    addr,
                }),
            fo0.len() >= wait_retries as int ==> {
                &&& retry_result(fo0, wait_retries as int) == retry_result(
                    swd.future_outcomes(),
                    wait_retries as int - tries as int,
                )
                &&& retry_attempts(fo0, wait_retries as int) == tries + retry_attempts(
                    swd.future_outcomes(),
                    wait_retries as int - tries as int,
                )
                &&& swd.future_outcomes() == fo0.skip(tries as int)
                &&& swd.txn_log().len() == log0.len() + tries
            },
        decreases wait_retries - tries,
    {
        let ghost pre = swd.future_outcomes();
        let ghost prelog = swd.txn_log();
        let res = swd.read_inner(port, addr);
        tries = tries + 1;
        proof {
            assert(swd.txn_log() == prelog.push(Txn::Read { port, addr }));
            assert(swd.txn_log().subrange(0, log0.len() as int) =~= log0);
            if fo0.len() >= wait_retries as int {
                assert(pre.len() > 0);
                assert(swd.future_outcomes() =~= fo0.skip(tries as int));
            }
        }
        match res {
            Err(SwdError::AckWait) => {
            },
            r => {
                proof {
                    if fo0.len() >= wait_retries as int {
                        assert(!(pre[0] is Wait));
                    }
                }
                return r;
            },
        }
        proof {
            if fo0.len() >= wait_retries as int {
                assert(pre[0] is Wait);
            }
        }
    }
    Err(SwdError::AckWait)
}

/// Write a register, retrying while the target answers WAIT.
pub fn swd_write<DEPS: SwjDependencies<S>, S: SwdDriver<DEPS>>(
    swd: &mut S,
    wait_retries: usize,
    port: APnDP,
    addr: DPRegister,
    data: u32,
) -> (r: SwdResult<()>)
    ensures
        old(swd).txn_log().len() <= final(swd).txn_log().len() <= old(swd).txn_log().len()
            + wait_retries,
        final(swd).txn_log().subrange(0, old(swd).txn_log().len() as int) == old(swd).txn_log(),
        forall|i: int|
            old(swd).txn_log().len() <= i < final(swd).txn_log().len() ==> final(swd).txn_log()[i]
                == (Txn::Write { port, addr, data }),
        old(swd).future_outcomes().len() >= wait_retries ==> {
            &&& r == write_of_outcome(retry_result(old(swd).future_outcomes(), wait_retries as int))
            &&& final(swd).future_outcomes() == old(swd).future_outcomes().skip(
                retry_attempts(old(swd).future_outcomes(), wait_retries as int),
            )
            &&& final(swd).txn_log().len() == old(swd).txn_log().len() + retry_attempts(
                old(swd).future_outcomes(),
                wait_retries as int,
            )
        },
{
    let ghost fo0 = old(swd).future_outcomes();
    let ghost log0 = old(swd).txn_log();
    proof {
        assert(fo0.skip(0) =~= fo0);
        assert(log0.subrange(0, log0.len() as int) =~= log0);
    }
    let mut tries: usize = 0;
    while tries < wait_retries
        invariant
            log0 == old(swd).txn_log(),
            fo0 == old(swd).future_outcomes(),
            tries <= wait_retries,
            log0.len() <= swd.txn_log().len() <= log0.len() + tries,
            swd.txn_log().subrange(0, log0.len() as int) == log0,
            forall|i: int|
                log0.len() <= i < swd.txn_log().len() ==> swd.txn_log()[i] == (Txn::Write {
                    port,
                    addr,
                    data,
                }),
            fo0.len() >= wait_retries as int ==> {
                &&& retry_result(fo0, wait_retries as int) == retry_result(
                    swd.future_outcomes(),
                    wait_retries as int - tries as int,
                )
                &&& retry_attempts(fo0, wait_retries as int) == tries + retry_attempts(
                    swd.future_outcomes(),
                    wait_retries as int - tries as int,
                )
                &&& swd.future_outcomes() == fo0.skip(tries as int)
                &&& swd.txn_log().len() == log0.len() + tries
            },
        decreases wait_retries - tries,
    {
        let ghost pre = swd.future_outcomes();
        let ghost prelog = swd.txn_log();
        let res = swd.write_inner(port, addr, data);
        tries = tries + 1;
        proof {
            assert(swd.txn_log() == prelog.push(Txn::Write { port, addr, data }));
            assert(swd.txn_log().subrange(0, log0.len() as int) =~= log0);
            if fo0.len() >= wait_retries as int {
                assert(pre.len() > 0);
                assert(swd.future_outcomes() =~= fo0.skip(tries as int));
            }
        }
        match res {
            Err(SwdError::AckWait) => {
            },
            r => {
                proof {
                    if fo0.len() >= wait_retries as int {
                        assert(!(pre[0] is Wait));
                    }
                }
                return r;
            },
        }
        proof {
            if fo0.len() >= wait_retries as int {
                assert(pre[0] is Wait);
            }
        }
    }
    Err(SwdError::AckWait)
}

} // verus!
