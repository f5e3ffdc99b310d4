//! Connection state machine of the command engine.
//!
//! The debug port is either idle (`None`, lines high impedance, the
//! pin-control capability held directly) or actively driven as SWD.
//! The `Invalid` variant exists only while a transition swaps the
//! capability between its two forms in place; no transition returns
//! with it, so it is never externally observable.

use vstd::prelude::*;

use crate::driver::SwdDriver;
use crate::swj::SwjDependencies;

verus! {

/// Which active mode a temporary move to idle should restore.
#[derive(Clone, Copy, PartialEq, Eq, Structural, Debug)]
pub enum DynState {
    Idle,
    Swd,
}

/// The connection state, owning the port capability in one of its two
/// forms.
pub enum State<DEPS, SWD> {
    /// Mid-transition placeholder; never observable outside a
    /// transition.
    Invalid,
    /// Port idle: direct pin control, remembering the mode to restore.
    Idle { mode_to_restore: DynState, deps: DEPS },
    /// Port actively driven as SWD.
    Swd(SWD),
}

/// What a caller can observe of the state: the inhabited variant and
/// the recorded mode, not the capability values.
#[derive(Clone, Copy, PartialEq, Eq, Structural, Debug)]
pub enum ObsState {
    Idle { mode_to_restore: DynState },
    Swd,
}

impl<DEPS, SWD> State<DEPS, SWD> {
    /// Exactly one of the two real variants is inhabited.
    pub open spec fn wf(&self) -> bool {
        !(self is Invalid)
    }

    /// The observable part of the state.
    pub open spec fn obs(&self) -> ObsState {
        match self {
            State::Idle { mode_to_restore, .. } => ObsState::Idle {
                mode_to_restore: *mode_to_restore,
            },
            _ => ObsState::Swd,
        }
    }
}

/// Observable effect of [`State::to_none`]: an active session parks,
/// recording that SWD was active; an idle port is untouched.
pub open spec fn obs_to_none(o: ObsState) -> ObsState {
    match o {
        ObsState::Swd => ObsState::Idle { mode_to_restore: DynState::Swd },
        ObsState::Idle { .. } => o,
    }
}

/// Observable effect of [`State::to_last_mode`]: an idle port returns
/// to the recorded mode; an active session is untouched.
pub open spec fn obs_to_last_mode(o: ObsState) -> ObsState {
    match o {
        ObsState::Idle { mode_to_restore: DynState::Swd } => ObsState::Swd,
        _ => o,
    }
}

/// Observable effect of [`State::to_swd`]: the port is driven as SWD.
pub open spec fn obs_to_swd(o: ObsState) -> ObsState {
    ObsState::Swd
}

/// Parking the port and restoring the last mode leaves the observable
/// state unchanged when no active mode was ever recorded.
pub proof fn lemma_restore_after_park_is_noop(o: ObsState)
    requires
        o == (ObsState::Idle { mode_to_restore: DynState::Idle }),
    ensures
        obs_to_last_mode(obs_to_none(o)) == o,
{
}

/// Entering SWD, parking the port, and restoring the last mode always
/// ends in SWD: the active mode survives the round trip.
pub proof fn lemma_swd_mode_round_trip(o: ObsState)
    ensures
        obs_to_last_mode(obs_to_none(obs_to_swd(o))) is Swd,
{
}

impl<DEPS: SwjDependencies<SWD>, SWD: SwdDriver<DEPS>> State<DEPS, SWD> {
    /// Start idle, with nothing to restore.
    pub fn new(deps: DEPS) -> (r: State<DEPS, SWD>)
        ensures
            r == (State::<DEPS, SWD>::Idle { mode_to_restore: DynState::Idle, deps }),
    {
        State::Idle { mode_to_restore: DynState::Idle, deps }
    }

    /// Force the port to idle, so that pin-level commands can run.
    pub fn to_none(&mut self)
        requires
            old(self).wf(),
        ensures
            final(self).wf(),
            final(self).obs() == obs_to_none(old(self).obs()),
            (*old(self)) is Idle ==> *final(self) == *old(self),
            (*old(self)) matches State::Swd(v) ==> ((*final(self)) matches State::Idle {
                mode_to_restore: DynState::Swd,
                deps,
            } && deps.holds(v)),
    {
        match self {
            State::Idle { .. } => {},
            _ => {
                let mut tmp = State::Invalid;
                core::mem::swap(self, &mut tmp);
                match tmp {
                    State::Swd(v) => {
                        *self = State::Idle {
                            mode_to_restore: DynState::Swd,
                            deps: v.into_deps(),
                        };
                    },
                    _ => {
                        proof {
                            assert(false);
                        }
                    },
                }
            },
        }
    }

    /// Return to the last recorded active mode, for commands that do
    /// real SWD transfers.
    pub fn to_last_mode(&mut self)
        requires
            old(self).wf(),
        ensures
            final(self).wf(),
            final(self).obs() == obs_to_last_mode(old(self).obs()),
            (*old(self)) is Swd ==> *final(self) == *old(self),
            (*old(self)) matches State::Idle { mode_to_restore: DynState::Idle, .. } ==> *final(self)
                == *old(self),
            (*old(self)) matches State::Idle { mode_to_restore: DynState::Swd, deps }
                ==> ((*final(self)) matches State::Swd(v) && deps.holds(v)),
    {
        match self {
            State::Swd(_) => {},
            State::Idle { mode_to_restore: DynState::Idle, .. } => {},
            _ => {
                let mut tmp = State::Invalid;
                core::mem::swap(self, &mut tmp);
                match tmp {
                    State::Idle { mode_to_restore: DynState::Swd, deps } => {
                        *self = State::Swd(deps.into_swd());
                    },
                    _ => {
                        proof {
                            assert(false);
                        }
                    },
                }
            },
        }
    }

    /// Force the port into SWD mode.
    pub fn to_swd(&mut self)
        requires
            old(self).wf(),
        ensures
            final(self).wf(),
            final(self).obs() == obs_to_swd(old(self).obs()),
            (*old(self)) is Swd ==> *final(self) == *old(self),
            (*old(self)) matches State::Idle { deps, .. } ==> ((*final(self)) matches State::Swd(
                v,
            ) && deps.holds(v)),
    {
        match self {
            State::Swd(_) => {},
            _ => {
                let mut tmp = State::Invalid;
                core::mem::swap(self, &mut tmp);
                match tmp {
                    State::Idle { mode_to_restore: _, deps } => {
                        *self = State::Swd(deps.into_swd());
                    },
                    _ => {
                        proof {
                            assert(false);
                        }
                    },
                }
            },
        }
    }

    /// Whether the currently active form of the port accepts a wire
    /// clock.
    pub open spec fn spec_clock_accepts(&self, max_frequency: u32) -> bool {
        match self {
            State::Idle { deps, .. } => deps.clock_accepts(max_frequency),
            State::Swd(v) => v.clock_accepts(max_frequency),
            State::Invalid => false,
        }
    }

    /// Dispatch a clock change to whichever form is active.
    pub fn set_clock(&mut self, max_frequency: u32) -> (ok: bool)
        requires
            old(self).wf(),
        ensures
            final(self).wf(),
            final(self).obs() == old(self).obs(),
            ok == old(self).spec_clock_accepts(max_frequency),
    {
        match self {
            State::Idle { deps, .. } => deps.process_swj_clock(max_frequency),
            State::Swd(v) => v.set_clock(max_frequency),
            State::Invalid => vstd::pervasive::unreached(),
        }
    }
}

} // verus!
