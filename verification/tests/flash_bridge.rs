use probe_core::flash::algo::{
    erase_sector, init, load_address, lookup_delta, program_page, table_base_address, uninit,
    Operation,
};
use probe_core::flash::ipc::Ipc;
use probe_core::flash::monitor::{flash_map_address, handle_pending_flash, FlashAction};
use probe_core::flash::spinlock::Spinlock30;

#[test]
fn program_round_trip_consumes_exactly_once() {
    let mut ipc = Ipc::new();
    let active_start = 0x0001_0000;

    // Post a Program request with regs = [addr, len, buf_ptr].
    assert!(program_page(&mut ipc, 0x1011_0000, 256, 0x2000_8000));
    assert!(!ipc.done());

    // Polling translates the address and acknowledges.
    let action = handle_pending_flash(&mut ipc, active_start);
    assert_eq!(
        action,
        FlashAction::Program { offset: 0x0010_0000, count: 256, data_ptr: 0x2000_8000 }
    );
    assert!(ipc.done());

    // The record is consumed exactly once: polling again finds
    // nothing.
    assert_eq!(handle_pending_flash(&mut ipc, active_start), FlashAction::NoRequest);
    assert!(ipc.done());
}

#[test]
fn post_refuses_while_a_request_is_in_flight() {
    let mut ipc = Ipc::new();
    assert!(erase_sector(&mut ipc, 0x1010_0000));
    // The producer must not reinterpret the record until it returns
    // to empty.
    assert!(!program_page(&mut ipc, 0x1011_0000, 256, 0x2000_8000));
    assert_eq!(handle_pending_flash(&mut ipc, 0), FlashAction::Erased);
    assert!(program_page(&mut ipc, 0x1011_0000, 256, 0x2000_8000));
}

#[test]
fn init_for_programming_marks_booted() {
    let mut ipc = Ipc::new();
    assert!(init(&mut ipc, 0x1000_0000, 0, Operation::Program));
    assert_eq!(handle_pending_flash(&mut ipc, 0), FlashAction::MarkBooted);

    assert!(init(&mut ipc, 0x1000_0000, 0, Operation::Erase));
    assert_eq!(handle_pending_flash(&mut ipc, 0), FlashAction::Initialised);
}

#[test]
fn uninit_after_programming_finalises_the_update() {
    let mut ipc = Ipc::new();
    assert!(uninit(&mut ipc, Operation::Program));
    assert_eq!(handle_pending_flash(&mut ipc, 0), FlashAction::MarkUpdatedAndReset);

    assert!(uninit(&mut ipc, Operation::Verify));
    assert_eq!(handle_pending_flash(&mut ipc, 0), FlashAction::Deinitialised);
}

#[test]
fn unknown_tags_are_acknowledged_not_acted_on() {
    let mut ipc = Ipc::new();
    ipc.what = 77;
    assert_eq!(handle_pending_flash(&mut ipc, 0), FlashAction::Unknown(77));
    assert!(ipc.done());
}

#[test]
fn program_address_below_the_partition_is_rejected() {
    let mut ipc = Ipc::new();
    assert!(program_page(&mut ipc, 0x1000_0100, 16, 0x2000_0000));
    // The active partition starts past the requested address.
    assert_eq!(
        handle_pending_flash(&mut ipc, 0x0002_0000),
        FlashAction::AddressOutOfRange
    );
    assert!(ipc.done());
}

#[test]
fn address_translation_strips_base_and_partition() {
    assert_eq!(flash_map_address(0x1011_0000, 0x0001_0000), 0x0010_0000);
    assert_eq!(flash_map_address(0x1000_0000, 0), 0);
}

#[test]
fn operation_codes_round_trip() {
    assert_eq!(Operation::try_from(1), Some(Operation::Erase));
    assert_eq!(Operation::try_from(2), Some(Operation::Program));
    assert_eq!(Operation::try_from(3), Some(Operation::Verify));
    assert_eq!(Operation::try_from(0), None);
    assert_eq!(Operation::try_from(4), None);
    assert_eq!(Operation::Program.code(), 2);
}

#[test]
fn trampoline_layout_matches_the_loading_contract() {
    assert_eq!(table_base_address(), 0x2000_03F0);
    assert_eq!(load_address(), 0x2000_0004);
    assert_eq!(lookup_delta(), 0x3E8);
}

#[test]
fn spinlock_has_one_holder_at_a_time() {
    let mut lock = Spinlock30::new();
    assert!(lock.try_claim());
    assert!(!lock.try_claim());
    lock.release();
    assert!(lock.try_claim());
}
