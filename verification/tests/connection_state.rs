use probe_core::dhcsr::{dhcsr, dhcsr_clear_debugen};
use probe_core::sim::{ScriptDriver, SimDeps};
use probe_core::state::{DynState, State};

fn fresh_state() -> State<SimDeps, ScriptDriver> {
    State::new(SimDeps::new(ScriptDriver::new(Vec::new())))
}

#[test]
fn park_and_restore_is_a_no_op_without_a_session() {
    let mut state = fresh_state();
    state.to_none();
    state.to_last_mode();
    match state {
        State::Idle { mode_to_restore, .. } => assert_eq!(mode_to_restore, DynState::Idle),
        _ => panic!("state left idle without a recorded session"),
    }
}

#[test]
fn swd_mode_survives_park_and_restore() {
    let mut state = fresh_state();
    state.to_swd();
    state.to_none();
    match &state {
        State::Idle { mode_to_restore, .. } => assert_eq!(*mode_to_restore, DynState::Swd),
        _ => panic!("parking did not record the active mode"),
    }
    state.to_last_mode();
    assert!(matches!(state, State::Swd(_)));
}

#[test]
fn to_swd_is_idempotent() {
    let mut state = fresh_state();
    state.to_swd();
    state.to_swd();
    assert!(matches!(state, State::Swd(_)));
}

#[test]
fn dhcsr_packet_is_exact() {
    let expected = [
        0x05u8, 0x00, 0x02, 0x05, 0xF0, 0xED, 0x00, 0xE0, 0x0D, 0x00, 0x00, 0x5F, 0xA0,
    ];
    assert_eq!(dhcsr(false).as_slice(), &expected);
    // The write pattern masks the enable bit low either way.
    assert_eq!(dhcsr(true).as_slice(), &expected);
    assert_eq!(dhcsr_clear_debugen().as_slice(), &expected);
}
