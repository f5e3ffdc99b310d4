use probe_core::boot_success::BootSuccessMarker;
use probe_core::dap::command::{DapLeds, HostStatus};
use probe_core::status::DebugStatus;

#[test]
fn test_connected_then_disconnected() {
    let mut status = DebugStatus::default();

    // Initially, no disconnect has been recorded.
    assert_eq!(status.disconnected(), false);

    let led = status.dap_leds();
    // Signal a connection.
    led.react_to_host_status(HostStatus::Connected(true));
    // Now signal a disconnection, which should only set the disconnected flag because a connection was seen.
    led.react_to_host_status(HostStatus::Connected(false));

    assert_eq!(status.disconnected(), true);
}

#[test]
fn test_disconnect_without_prior_connection() {
    let mut status = DebugStatus::default();

    // Signal a disconnection without a prior connection.
    let led = status.dap_leds();
    led.react_to_host_status(HostStatus::Connected(false));

    // The disconnected flag should remain false.
    assert_eq!(status.disconnected(), false);
}

#[test]
fn test_running_status_has_no_effect_on_connection() {
    let mut status = DebugStatus::default();

    // Sending running messages should not change connection related flags.
    let led = status.dap_leds();
    led.react_to_host_status(HostStatus::Running(true));
    led.react_to_host_status(HostStatus::Running(false));

    // Since no connection/disconnection occurred, disconnected should be false.
    assert_eq!(status.disconnected(), false);
}

#[test]
fn boot_marker_waits_for_confirmed_connection() {
    let marker = BootSuccessMarker::new();
    assert!(!marker.should_mark(HostStatus::Running(true)));
    assert!(!marker.should_mark(HostStatus::Connected(false)));
    assert!(marker.should_mark(HostStatus::Connected(true)));
}

#[test]
fn boot_marker_retries_until_success() {
    let mut marker = BootSuccessMarker::new();
    marker.record_attempt(false);
    assert!(marker.should_mark(HostStatus::Connected(true)));
    marker.record_attempt(true);
    assert!(!marker.should_mark(HostStatus::Connected(true)));
}
