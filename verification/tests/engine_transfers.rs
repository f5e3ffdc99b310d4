use probe_core::dap::command::DapVersion;
use probe_core::dap::Dap;
use probe_core::driver::TxnOutcome;
use probe_core::leds::DapLeds;
use probe_core::sim::{ScriptDriver, SimDeps, SimPins, TargetDeps, TargetDriver};
use probe_core::state::State;
use probe_core::swd::parity32;
use probe_core::swj::Swj;
use probe_core::transport::Transport;

fn engine_with_script(outcomes: Vec<TxnOutcome>) -> Dap<SimDeps, DapLeds, ScriptDriver> {
    let driver = ScriptDriver::new(outcomes);
    let deps = SimDeps::new(driver);
    let mut dap = Dap::new(deps, DapLeds::new(), Vec::new());
    let mut rbuf: Vec<u8> = Vec::new();
    assert_eq!(dap.process_command(&[0x02, 0x00], &mut rbuf, DapVersion::V2), 2);
    assert_eq!(rbuf[1], 0x01);
    dap
}

fn script_txn_count(dap: &Dap<SimDeps, DapLeds, ScriptDriver>) -> usize {
    match &dap.state {
        State::Swd(driver) => driver.txn_count(),
        _ => panic!("engine is not in SWD mode"),
    }
}

fn engine_with_target(dp: [u32; 4], ap: [u32; 4]) -> Dap<TargetDeps, DapLeds, TargetDriver> {
    let driver = TargetDriver::new(dp, ap);
    let deps = TargetDeps::new(driver);
    let mut dap = Dap::new(deps, DapLeds::new(), Vec::new());
    let mut rbuf: Vec<u8> = Vec::new();
    assert_eq!(dap.process_command(&[0x02, 0x00], &mut rbuf, DapVersion::V2), 2);
    assert_eq!(rbuf[1], 0x01);
    dap
}

#[test]
fn transfer_batch_of_dp_reads_returns_all_words() {
    let mut dap = engine_with_script(vec![
        TxnOutcome::Done(0x1111_1111),
        TxnOutcome::Done(0x2222_2222),
    ]);
    let mut rbuf: Vec<u8> = Vec::new();
    // Two reads of DP register 0.
    let n = dap.process_command(&[0x05, 0x00, 0x02, 0x02, 0x02], &mut rbuf, DapVersion::V2);
    assert_eq!(n, 11);
    assert_eq!(&rbuf[..3], &[0x05, 0x02, 0x01]);
    assert_eq!(&rbuf[3..7], &[0x11, 0x11, 0x11, 0x11]);
    assert_eq!(&rbuf[7..11], &[0x22, 0x22, 0x22, 0x22]);
    assert_eq!(script_txn_count(&dap), 2);
}

#[test]
fn transfer_batch_stops_at_first_failure() {
    // The third of four sub-transfers faults: the response reports
    // three executed transfers, the fault status, and the two words
    // read before it; the fourth sub-transfer is never issued.
    let mut dap = engine_with_script(vec![
        TxnOutcome::Done(1),
        TxnOutcome::Done(2),
        TxnOutcome::Fault,
        TxnOutcome::Done(4),
    ]);
    let mut rbuf: Vec<u8> = Vec::new();
    let n = dap.process_command(
        &[0x05, 0x00, 0x04, 0x02, 0x02, 0x02, 0x02],
        &mut rbuf,
        DapVersion::V2,
    );
    assert_eq!(n, 11);
    assert_eq!(&rbuf[..3], &[0x05, 0x03, 0x04]);
    assert_eq!(&rbuf[3..7], &[1, 0, 0, 0]);
    assert_eq!(&rbuf[7..11], &[2, 0, 0, 0]);
    assert_eq!(script_txn_count(&dap), 3);
}

#[test]
fn transfer_batch_failure_on_first_sub_transfer() {
    let mut dap = engine_with_script(vec![TxnOutcome::Fault, TxnOutcome::Done(9)]);
    let mut rbuf: Vec<u8> = Vec::new();
    let n = dap.process_command(&[0x05, 0x00, 0x02, 0x02, 0x02], &mut rbuf, DapVersion::V2);
    assert_eq!(n, 3);
    assert_eq!(&rbuf[..3], &[0x05, 0x01, 0x04]);
    assert_eq!(script_txn_count(&dap), 1);
}

#[test]
fn transfer_retries_wait_acks_up_to_the_budget() {
    // Every attempt answers WAIT: with the default budget of five the
    // engine issues five transactions and reports the WAIT status.
    let mut dap = engine_with_script(vec![
        TxnOutcome::Wait,
        TxnOutcome::Wait,
        TxnOutcome::Wait,
        TxnOutcome::Wait,
        TxnOutcome::Wait,
        TxnOutcome::Wait,
    ]);
    let mut rbuf: Vec<u8> = Vec::new();
    let n = dap.process_command(&[0x05, 0x00, 0x01, 0x02], &mut rbuf, DapVersion::V2);
    assert_eq!(n, 3);
    assert_eq!(&rbuf[..3], &[0x05, 0x01, 0x02]);
    assert_eq!(script_txn_count(&dap), 5);
}

#[test]
fn transfer_write_then_read_hits_the_wire_twice() {
    // A write followed by a read of the same DP register: the read
    // value comes from the wire, not from any cache of the write.
    let mut dap = engine_with_script(vec![
        TxnOutcome::Done(0),
        TxnOutcome::Done(0x5555_AAAA),
    ]);
    let mut rbuf: Vec<u8> = Vec::new();
    // Write DP register 2 (SELECT) with 0x11111111, then read it.
    let n = dap.process_command(
        &[0x05, 0x00, 0x02, 0x08, 0x11, 0x11, 0x11, 0x11, 0x0A],
        &mut rbuf,
        DapVersion::V2,
    );
    assert_eq!(n, 7);
    assert_eq!(&rbuf[..3], &[0x05, 0x02, 0x01]);
    assert_eq!(&rbuf[3..7], &[0xAA, 0xAA, 0x55, 0x55]);
    assert_eq!(script_txn_count(&dap), 2);
}

#[test]
fn target_write_then_read_returns_written_value() {
    // Against the register-file target, the read returns what the
    // write stored, because both really reach the register.
    let mut dap = engine_with_target([0; 4], [0; 4]);
    let mut rbuf: Vec<u8> = Vec::new();
    let n = dap.process_command(
        &[0x05, 0x00, 0x02, 0x08, 0xEF, 0xBE, 0xAD, 0xDE, 0x0A],
        &mut rbuf,
        DapVersion::V2,
    );
    assert_eq!(n, 7);
    assert_eq!(&rbuf[..3], &[0x05, 0x02, 0x01]);
    assert_eq!(&rbuf[3..7], &[0xEF, 0xBE, 0xAD, 0xDE]);
}

#[test]
fn posted_ap_read_yields_the_unposted_value() {
    // The target posts AP reads; the engine drains the read buffer, so
    // a single AP read sub-transfer still returns the register value.
    let mut dap = engine_with_target([0; 4], [0, 0x1234_5678, 0, 0]);
    let mut rbuf: Vec<u8> = Vec::new();
    // Read AP register 1.
    let n = dap.process_command(&[0x05, 0x00, 0x01, 0x07], &mut rbuf, DapVersion::V2);
    assert_eq!(n, 7);
    assert_eq!(&rbuf[..3], &[0x05, 0x01, 0x01]);
    assert_eq!(&rbuf[3..7], &[0x78, 0x56, 0x34, 0x12]);
}

#[test]
fn chained_ap_reads_return_the_previous_address() {
    // Two raw AP reads on the target model: the second read returns
    // the value posted by the first.
    let mut target = TargetDriver::new([0; 4], [0xAAAA_0000, 0xBBBB_1111, 0, 0]);
    let first = target.read_reg(probe_core::swd::APnDP::AP, probe_core::swd::DPRegister::DPIDR);
    // The first read returns the stale read buffer...
    assert_eq!(first, 0);
    let second = target.read_reg(probe_core::swd::APnDP::AP, probe_core::swd::DPRegister::CTRLSTAT);
    // ...and the second returns the value for the first read's address.
    assert_eq!(second, 0xAAAA_0000);
}

#[test]
fn value_match_retries_and_flags_mismatch() {
    // A value-match read that never matches: the mismatch flag (bit 4)
    // is set on the count byte and the batch ends.
    let mut dap = engine_with_script(vec![
        TxnOutcome::Done(1),
        TxnOutcome::Done(2),
        TxnOutcome::Done(3),
        TxnOutcome::Done(4),
        TxnOutcome::Done(5),
        TxnOutcome::Done(6),
        TxnOutcome::Done(7),
        TxnOutcome::Done(8),
        TxnOutcome::Done(9),
        TxnOutcome::Done(10),
    ]);
    let mut rbuf: Vec<u8> = Vec::new();
    // One sub-transfer: read DP register 0 with value match, target
    // value 0xFFFFFFFF (never read).
    let n = dap.process_command(
        &[0x05, 0x00, 0x01, 0x12, 0xFF, 0xFF, 0xFF, 0xFF],
        &mut rbuf,
        DapVersion::V2,
    );
    assert_eq!(n, 3);
    assert_eq!(rbuf[1], 0x01 | 0x10);
    // Initial read plus the default eight match retries.
    assert_eq!(script_txn_count(&dap), 9);
}

#[test]
fn transfer_block_reads_share_one_register() {
    let mut dap = engine_with_script(vec![
        TxnOutcome::Done(5),
        TxnOutcome::Done(6),
        TxnOutcome::Done(7),
    ]);
    let mut rbuf: Vec<u8> = Vec::new();
    // Three block reads of DP register 0.
    let n = dap.process_command(&[0x06, 0x00, 0x03, 0x00, 0x02], &mut rbuf, DapVersion::V2);
    assert_eq!(n, 16);
    assert_eq!(&rbuf[..4], &[0x06, 0x03, 0x00, 0x01]);
    assert_eq!(&rbuf[4..8], &[5, 0, 0, 0]);
    assert_eq!(&rbuf[8..12], &[6, 0, 0, 0]);
    assert_eq!(&rbuf[12..16], &[7, 0, 0, 0]);
    assert_eq!(script_txn_count(&dap), 3);
}

#[test]
fn transfer_block_reports_where_it_stopped() {
    let mut dap = engine_with_script(vec![
        TxnOutcome::Done(5),
        TxnOutcome::Fault,
        TxnOutcome::Done(7),
    ]);
    let mut rbuf: Vec<u8> = Vec::new();
    let n = dap.process_command(&[0x06, 0x00, 0x03, 0x00, 0x02], &mut rbuf, DapVersion::V2);
    assert_eq!(n, 8);
    assert_eq!(&rbuf[..4], &[0x06, 0x02, 0x00, 0x04]);
    assert_eq!(&rbuf[4..8], &[5, 0, 0, 0]);
    assert_eq!(script_txn_count(&dap), 2);
}

#[test]
fn transfer_block_ap_read_posts_early_and_drains() {
    // Two AP block reads on the posting target: post early, read
    // once, drain through the read buffer; both words are register
    // values.
    let mut dap = engine_with_target([0; 4], [0x0A0A_0A0A, 0, 0, 0]);
    let mut rbuf: Vec<u8> = Vec::new();
    // Two block reads of AP register 0.
    let n = dap.process_command(&[0x06, 0x00, 0x02, 0x00, 0x03], &mut rbuf, DapVersion::V2);
    assert_eq!(n, 12);
    assert_eq!(&rbuf[..4], &[0x06, 0x02, 0x00, 0x01]);
    assert_eq!(&rbuf[4..8], &[0x0A, 0x0A, 0x0A, 0x0A]);
    assert_eq!(&rbuf[8..12], &[0x0A, 0x0A, 0x0A, 0x0A]);
}

#[test]
fn scenario_connect_configure_read_idr() {
    // A whole session against the bit-level wire: connect, configure
    // retries, then read the DP identification register from a
    // simulated target answering OK with matching parity.
    let word = 0x0BA0_1477;
    let mut pins = SimPins::new();
    pins.queue_read_txn(1, word, parity32(word));
    let transport = Transport::new(125_000_000, pins);
    let swj = Swj::new(transport);
    let mut dap: Dap<Swj<SimPins>, DapLeds, Transport<SimPins>> =
        Dap::new(swj, DapLeds::new(), Vec::new());
    let mut rbuf: Vec<u8> = Vec::new();

    // Connect with the default port: the SWD port byte comes back.
    let n = dap.process_command(&[0x02, 0x00], &mut rbuf, DapVersion::V2);
    assert_eq!(n, 2);
    assert_eq!(&rbuf[..2], &[0x02, 0x01]);

    // TransferConfigure(idle = 0, wait_retries = 5, match_retries = 8).
    let n = dap.process_command(
        &[0x04, 0x00, 0x05, 0x00, 0x08, 0x00],
        &mut rbuf,
        DapVersion::V2,
    );
    assert_eq!(n, 2);
    assert_eq!(&rbuf[..2], &[0x04, 0x00]);

    // Transfer(count = 1, read DP IDR).
    let n = dap.process_command(&[0x05, 0x00, 0x01, 0x02], &mut rbuf, DapVersion::V2);
    assert_eq!(n, 7);
    assert_eq!(&rbuf[..7], &[0x05, 0x01, 0x01, 0x77, 0x14, 0xA0, 0x0B]);
}

#[test]
fn transfer_write_batch_stops_at_first_failure() {
    // Three DP writes; the second faults: two executed, fault status,
    // and the third never reaches the wire.
    let mut dap = engine_with_script(vec![
        TxnOutcome::Done(0),
        TxnOutcome::Fault,
        TxnOutcome::Done(0),
    ]);
    let mut rbuf: Vec<u8> = Vec::new();
    let n = dap.process_command(
        &[
            0x05, 0x00, 0x03, 0x08, 0x01, 0x00, 0x00, 0x00, 0x08, 0x02, 0x00, 0x00, 0x00, 0x08,
            0x03, 0x00, 0x00, 0x00,
        ],
        &mut rbuf,
        DapVersion::V2,
    );
    assert_eq!(n, 3);
    assert_eq!(&rbuf[..3], &[0x05, 0x02, 0x04]);
    assert_eq!(script_txn_count(&dap), 2);
}

#[test]
fn transfer_write_batch_reports_all_done() {
    let mut dap = engine_with_script(vec![TxnOutcome::Done(0), TxnOutcome::Done(0)]);
    let mut rbuf: Vec<u8> = Vec::new();
    let n = dap.process_command(
        &[0x05, 0x00, 0x02, 0x08, 0x01, 0x00, 0x00, 0x00, 0x08, 0x02, 0x00, 0x00, 0x00],
        &mut rbuf,
        DapVersion::V2,
    );
    assert_eq!(n, 3);
    assert_eq!(&rbuf[..3], &[0x05, 0x02, 0x01]);
    assert_eq!(script_txn_count(&dap), 2);
}

#[test]
fn mask_only_write_counts_but_issues_nothing() {
    let mut dap = engine_with_script(vec![TxnOutcome::Done(0)]);
    let mut rbuf: Vec<u8> = Vec::new();
    // One sub-transfer: a write with the match-mask bit set.
    let n = dap.process_command(
        &[0x05, 0x00, 0x01, 0x20, 0xFF, 0xFF, 0x00, 0x00],
        &mut rbuf,
        DapVersion::V2,
    );
    assert_eq!(n, 3);
    assert_eq!(&rbuf[..3], &[0x05, 0x01, 0x00]);
    assert_eq!(script_txn_count(&dap), 0);
}

#[test]
fn match_mask_narrows_value_match_compares() {
    // Set a low-halfword mask, then value-match a read whose upper
    // half differs: the masked compare succeeds at once.
    let mut dap = engine_with_script(vec![TxnOutcome::Done(0xFFFF_AAAA)]);
    let mut rbuf: Vec<u8> = Vec::new();
    let n = dap.process_command(
        &[
            0x05, 0x00, 0x02, 0x20, 0xFF, 0xFF, 0x00, 0x00, 0x12, 0xAA, 0xAA, 0x00, 0x00,
        ],
        &mut rbuf,
        DapVersion::V2,
    );
    assert_eq!(n, 3);
    assert_eq!(&rbuf[..3], &[0x05, 0x02, 0x01]);
    assert_eq!(script_txn_count(&dap), 1);
}

#[test]
fn transfer_block_early_posted_read_failure_counts_one() {
    let mut dap = engine_with_script(vec![TxnOutcome::Fault, TxnOutcome::Done(1)]);
    let mut rbuf: Vec<u8> = Vec::new();
    // Two block reads of AP register 0: the early posted read faults.
    let n = dap.process_command(&[0x06, 0x00, 0x02, 0x00, 0x03], &mut rbuf, DapVersion::V2);
    assert_eq!(n, 4);
    assert_eq!(&rbuf[..4], &[0x06, 0x01, 0x00, 0x04]);
    assert_eq!(script_txn_count(&dap), 1);
}
