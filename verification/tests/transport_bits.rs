use probe_core::swd::{ack_try_ok, make_request, parity32, APnDP, DPRegister, RnW, SwdError};
use probe_core::sim::SimPins;
use probe_core::transport::Transport;

#[test]
fn request_bytes_follow_the_wire_format() {
    // Start bit, park bit, and the address/parity fields, LSB first.
    // Read of DP register 0 (DPIDR): start=1, dir=1 -> parity over
    // {0,1,0,0} = 1.
    assert_eq!(make_request(APnDP::DP, RnW::R, DPRegister::DPIDR), 0b1010_0101);
    // Write of DP register 0: all field bits zero, parity 0.
    assert_eq!(make_request(APnDP::DP, RnW::W, DPRegister::DPIDR), 0b1000_0001);
    // Read of AP register 3 (RDBUFF): bits {1,1,1,1} -> parity 0.
    assert_eq!(make_request(APnDP::AP, RnW::R, DPRegister::RDBUFF), 0b1001_1111);
}

#[test]
fn acknowledge_decoding() {
    assert_eq!(ack_try_ok(1), Ok(()));
    assert_eq!(ack_try_ok(2), Err(SwdError::AckWait));
    assert_eq!(ack_try_ok(4), Err(SwdError::AckFault));
    assert_eq!(ack_try_ok(0), Err(SwdError::AckUnknown));
    assert_eq!(ack_try_ok(7), Err(SwdError::AckUnknown));
}

#[test]
fn parity_is_popcount_low_bit() {
    assert_eq!(parity32(0), false);
    assert_eq!(parity32(1), true);
    assert_eq!(parity32(3), false);
    assert_eq!(parity32(0x8000_0001), false);
    assert_eq!(parity32(0xFFFF_FFFF), false);
    assert_eq!(parity32(0x0BA0_1477), true);
}

#[test]
fn read_accepts_exactly_matching_parity() {
    let word = 0x0BA0_1477;
    let mut pins = SimPins::new();
    pins.queue_read_txn(1, word, parity32(word));
    let mut transport = Transport::new(125_000_000, pins);
    assert_eq!(transport.read_txn(APnDP::DP, DPRegister::DPIDR), Ok(word));
}

#[test]
fn read_rejects_flipped_parity_as_parity_error() {
    let word = 0x0BA0_1477;
    let mut pins = SimPins::new();
    pins.queue_read_txn(1, word, !parity32(word));
    let mut transport = Transport::new(125_000_000, pins);
    assert_eq!(
        transport.read_txn(APnDP::DP, DPRegister::DPIDR),
        Err(SwdError::BadParity)
    );
}

#[test]
fn read_reports_wait_and_fault_acks() {
    let mut pins = SimPins::new();
    pins.queue_read_txn(2, 0, false);
    let mut transport = Transport::new(125_000_000, pins);
    assert_eq!(
        transport.read_txn(APnDP::DP, DPRegister::DPIDR),
        Err(SwdError::AckWait)
    );

    let mut pins = SimPins::new();
    pins.queue_read_txn(4, 0, false);
    let mut transport = Transport::new(125_000_000, pins);
    assert_eq!(
        transport.read_txn(APnDP::DP, DPRegister::DPIDR),
        Err(SwdError::AckFault)
    );
}

#[test]
fn failed_ack_still_drives_bus_recovery_bits() {
    // Request byte (8 bits driven) plus eight idle bits after the
    // non-OK acknowledge: the transport must take the bus back.
    let mut pins = SimPins::new();
    pins.queue_read_txn(4, 0, false);
    let mut transport = Transport::new(125_000_000, pins);
    let _ = transport.read_txn(APnDP::DP, DPRegister::DPIDR);
    assert_eq!(transport.pins.driven_len(), 16);
    for i in 8..16 {
        assert_eq!(transport.pins.driven_bit(i), false);
    }
}

#[test]
fn write_drives_request_data_parity_and_idle() {
    let word = 0xDEAD_BEEF;
    let mut pins = SimPins::new();
    pins.queue_write_txn(1);
    let mut transport = Transport::new(125_000_000, pins);
    assert_eq!(transport.write_txn(APnDP::DP, DPRegister::SELECT, word), Ok(()));
    // 8 request bits + 32 data bits + parity + 8 idle bits.
    assert_eq!(transport.pins.driven_len(), 49);
    // The data phase is the word, least significant bit first.
    for i in 0..32 {
        assert_eq!(transport.pins.driven_bit(8 + i), (word >> i) & 1 == 1);
    }
    assert_eq!(transport.pins.driven_bit(40), parity32(word));
}

#[test]
fn set_clock_accepts_only_generatable_rates() {
    let pins = SimPins::new();
    let mut transport = Transport::new(125_000_000, pins);
    assert!(transport.set_clock_inner(1_000_000));
    assert!(transport.set_clock_inner(124_999_999));
    assert!(!transport.set_clock_inner(125_000_000));
    assert!(!transport.set_clock_inner(200_000_000));
}
