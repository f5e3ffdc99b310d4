use probe_core::dap::command::DapVersion;
use probe_core::dap::Dap;
use probe_core::driver::TxnOutcome;
use probe_core::leds::DapLeds;
use probe_core::sim::{ScriptDriver, SimDeps};
use probe_core::state::State;

fn engine_with_script(outcomes: Vec<TxnOutcome>) -> Dap<SimDeps, DapLeds, ScriptDriver> {
    let driver = ScriptDriver::new(outcomes);
    let deps = SimDeps::new(driver);
    Dap::new(deps, DapLeds::new(), Vec::new())
}

fn connect(dap: &mut Dap<SimDeps, DapLeds, ScriptDriver>) {
    let mut rbuf: Vec<u8> = Vec::new();
    let n = dap.process_command(&[0x02, 0x00], &mut rbuf, DapVersion::V2);
    assert_eq!(n, 2);
    assert_eq!(rbuf[1], 0x01);
}

fn txn_count(dap: &Dap<SimDeps, DapLeds, ScriptDriver>) -> usize {
    match &dap.state {
        State::Swd(driver) => driver.txn_count(),
        _ => panic!("engine is not in SWD mode"),
    }
}

#[test]
fn connect_default_and_swd_succeed() {
    for port in [0x00u8, 0x01u8] {
        let mut dap = engine_with_script(vec![]);
        let mut rbuf: Vec<u8> = Vec::new();
        let n = dap.process_command(&[0x02, port], &mut rbuf, DapVersion::V2);
        assert_eq!(n, 2);
        assert_eq!(rbuf[0], 0x02);
        assert_eq!(rbuf[1], 0x01);
        assert!(matches!(dap.state, State::Swd(_)));
    }
}

#[test]
fn connect_jtag_or_invalid_port_fails_and_stays_idle() {
    for port in [0x02u8, 0x05u8, 0xFFu8] {
        let mut dap = engine_with_script(vec![]);
        let mut rbuf: Vec<u8> = Vec::new();
        let n = dap.process_command(&[0x02, port], &mut rbuf, DapVersion::V2);
        assert_eq!(n, 2);
        assert_eq!(rbuf[1], 0x00);
        assert!(matches!(dap.state, State::Idle { .. }));
    }
}

#[test]
fn disconnect_parks_the_port_from_any_state() {
    // From an active SWD session.
    let mut dap = engine_with_script(vec![]);
    connect(&mut dap);
    let mut rbuf: Vec<u8> = Vec::new();
    let n = dap.process_command(&[0x03], &mut rbuf, DapVersion::V2);
    assert_eq!(n, 2);
    assert_eq!(rbuf[1], 0x00);
    match &dap.state {
        State::Idle { deps, .. } => assert!(!deps.attach),
        _ => panic!("engine did not park the port"),
    }

    // From idle: still idle, lines released, still reports success.
    let mut dap = engine_with_script(vec![]);
    let n = dap.process_command(&[0x03], &mut rbuf, DapVersion::V2);
    assert_eq!(n, 2);
    assert_eq!(rbuf[1], 0x00);
    match &dap.state {
        State::Idle { deps, .. } => assert!(!deps.attach),
        _ => panic!("engine did not stay parked"),
    }
}

#[test]
fn info_reports_capabilities_and_packet_sizes() {
    let mut dap = engine_with_script(vec![]);
    let mut rbuf: Vec<u8> = Vec::new();

    // Capabilities: one byte, SWD only.
    let n = dap.process_command(&[0x00, 0xF0], &mut rbuf, DapVersion::V2);
    assert_eq!(n, 3);
    assert_eq!(&rbuf[..3], &[0x00, 0x01, 0x01]);

    // Packet size depends on the negotiated version.
    let n = dap.process_command(&[0x00, 0xFF], &mut rbuf, DapVersion::V2);
    assert_eq!(n, 4);
    assert_eq!(&rbuf[..4], &[0x00, 0x02, 0x00, 0x02]);
    let n = dap.process_command(&[0x00, 0xFF], &mut rbuf, DapVersion::V1);
    assert_eq!(n, 4);
    assert_eq!(&rbuf[..4], &[0x00, 0x02, 0x40, 0x00]);

    // Vendor name: empty, read from the transport instead.
    let n = dap.process_command(&[0x00, 0x01], &mut rbuf, DapVersion::V2);
    assert_eq!(n, 2);
    assert_eq!(&rbuf[..2], &[0x00, 0x00]);
}

#[test]
fn empty_and_unknown_requests_are_dropped() {
    let mut dap = engine_with_script(vec![]);
    let mut rbuf: Vec<u8> = Vec::new();
    assert_eq!(dap.process_command(&[], &mut rbuf, DapVersion::V2), 0);
    // SWO transport configuration is not served by this probe.
    assert_eq!(dap.process_command(&[0x17, 0x01], &mut rbuf, DapVersion::V2), 0);
    // A transfer abort gets no response by protocol convention.
    assert_eq!(dap.process_command(&[0x07], &mut rbuf, DapVersion::V2), 0);
}

#[test]
fn swd_configure_accepts_only_the_default() {
    let mut dap = engine_with_script(vec![]);
    let mut rbuf: Vec<u8> = Vec::new();
    let n = dap.process_command(&[0x13, 0x00], &mut rbuf, DapVersion::V2);
    assert_eq!(n, 2);
    assert_eq!(rbuf[1], 0x00);
    for config in [0x01u8, 0x02, 0x04, 0x07] {
        let n = dap.process_command(&[0x13, config], &mut rbuf, DapVersion::V2);
        assert_eq!(n, 2);
        assert_eq!(rbuf[1], 0xFF);
    }
}

#[test]
fn swj_sequence_rejects_short_payload() {
    let mut dap = engine_with_script(vec![]);
    let mut rbuf: Vec<u8> = Vec::new();
    // 16 bits announced but only one payload byte present.
    let n = dap.process_command(&[0x12, 0x10, 0xAA], &mut rbuf, DapVersion::V2);
    assert_eq!(n, 2);
    assert_eq!(rbuf[1], 0xFF);
    // 8 bits with one byte: accepted.
    let n = dap.process_command(&[0x12, 0x08, 0xAA], &mut rbuf, DapVersion::V2);
    assert_eq!(n, 2);
    assert_eq!(rbuf[1], 0x00);
}

#[test]
fn host_status_always_replies_ok() {
    let mut dap = engine_with_script(vec![]);
    let mut rbuf: Vec<u8> = Vec::new();
    let n = dap.process_command(&[0x01, 0x00, 0x01], &mut rbuf, DapVersion::V2);
    assert_eq!(n, 2);
    assert_eq!(rbuf[1], 0x00);
    // An unknown status type is ignored but still acknowledged.
    let n = dap.process_command(&[0x01, 0x09, 0x01], &mut rbuf, DapVersion::V2);
    assert_eq!(n, 2);
    assert_eq!(rbuf[1], 0x00);
}

#[test]
fn reset_target_reports_no_sequence() {
    let mut dap = engine_with_script(vec![]);
    let mut rbuf: Vec<u8> = Vec::new();
    let n = dap.process_command(&[0x0A], &mut rbuf, DapVersion::V2);
    assert_eq!(n, 3);
    assert_eq!(&rbuf[..3], &[0x0A, 0x00, 0x00]);
}

#[test]
fn write_abort_issues_a_dp_write() {
    let mut dap = engine_with_script(vec![TxnOutcome::Done(0)]);
    connect(&mut dap);
    let mut rbuf: Vec<u8> = Vec::new();
    let n = dap.process_command(
        &[0x08, 0x00, 0x1E, 0x00, 0x00, 0x00],
        &mut rbuf,
        DapVersion::V2,
    );
    assert_eq!(n, 2);
    assert_eq!(rbuf[1], 0x00);
    assert_eq!(txn_count(&dap), 1);
}

#[test]
fn transfer_configure_records_retries() {
    let mut dap = engine_with_script(vec![]);
    let mut rbuf: Vec<u8> = Vec::new();
    let n = dap.process_command(
        &[0x04, 0x00, 0x05, 0x00, 0x08, 0x00],
        &mut rbuf,
        DapVersion::V2,
    );
    assert_eq!(n, 2);
    assert_eq!(rbuf[1], 0x00);
    assert_eq!(dap.swd_wait_retries, 5);
    assert_eq!(dap.match_retries, 8);
}

#[test]
fn swj_pins_reports_masked_outputs() {
    let mut dap = engine_with_script(vec![]);
    let mut rbuf: Vec<u8> = Vec::new();
    // All pins high, all pins selected: only the real pins remain.
    let n = dap.process_command(
        &[0x10, 0xFF, 0xFF, 0x00, 0x00, 0x00, 0x00],
        &mut rbuf,
        DapVersion::V2,
    );
    assert_eq!(n, 2);
    assert_eq!(rbuf[1], 0xAF);
}

#[test]
fn suspend_parks_and_detaches() {
    let mut dap = engine_with_script(vec![]);
    connect(&mut dap);
    dap.suspend();
    match &dap.state {
        State::Idle { deps, .. } => assert!(!deps.attach),
        _ => panic!("suspend did not park the port"),
    }
}
