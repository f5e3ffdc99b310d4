//! The probing core's polling routine: interpret a pending flash
//! request, decide what flash work it needs, and acknowledge it.
//!
//! The flash work itself (writing firmware, marking boot state,
//! scheduling a reset) happens outside this crate; the decision comes
//! back as a [`FlashAction`] value.  Whatever the request held, it is
//! acknowledged exactly once, so the probed core is never left blocked.

use vstd::prelude::*;

use super::algo::{spec_operation_code, Operation};
use super::ipc::{Ipc, IpcWhat};

verus! {

/// The flash base in the address space: runtime addresses arriving
/// over the bridge are relative to memory, flash offsets are not.
pub const FLASH_BASE: u32 = 0x1000_0000;

/// What the polling routine asks its caller to do for one request.
#[derive(Clone, Copy, PartialEq, Eq, Structural, Debug)]
pub enum FlashAction {
    /// No request was pending; nothing was consumed.
    NoRequest,
    /// A programming session began: mark the current image booted so
    /// the updater is in a clean state.
    MarkBooted,
    /// A session began for an operation that needs no bookkeeping.
    Initialised,
    /// A programming session ended: mark the new image updated and
    /// schedule a reset so the bootloader swaps it in.
    MarkUpdatedAndReset,
    /// A session ended without programming; nothing to do.
    Deinitialised,
    /// Write `count` bytes from the buffer at `data_ptr` to the given
    /// on-flash offset of the active partition.
    Program { offset: u32, count: usize, data_ptr: usize },
    /// A program address that does not lie in the active partition;
    /// acknowledged as a no-op rather than acted on.
    AddressOutOfRange,
    /// Erasing is handled as part of programming; acknowledge only.
    Erased,
    /// An unknown tag; acknowledged so the producer is not left
    /// blocked.
    Unknown(u8),
}

/// Translate a runtime memory address to an offset inside the active
/// firmware partition: strip the flash mapping base and the
/// partition's start.
pub fn flash_map_address(addr: u32, active_start: u32) -> (r: u32)
    requires
        addr >= FLASH_BASE + active_start,
    ensures
        r == addr - FLASH_BASE - active_start,
{
    addr - FLASH_BASE - active_start
}

/// The decision the polling routine makes for a given record state.
pub open spec fn spec_flash_decision(
    what: int,
    r0: int,
    r1: int,
    r2: int,
    active_start: int,
) -> FlashAction {
    if what == 0 {
        FlashAction::NoRequest
    } else if what == 1 {
        if r2 == spec_operation_code(Operation::Program) {
            FlashAction::MarkBooted
        } else {
            FlashAction::Initialised
        }
    } else if what == 2 {
        if r0 == spec_operation_code(Operation::Program) {
            FlashAction::MarkUpdatedAndReset
        } else {
            FlashAction::Deinitialised
        }
    } else if what == 3 {
        if r0 >= 0x1000_0000 + active_start && r0 <= u32::MAX {
            FlashAction::Program {
                offset: (r0 - 0x1000_0000 - active_start) as u32,
                count: r1 as usize,
                data_ptr: r2 as usize,
            }
        } else {
            FlashAction::AddressOutOfRange
        }
    } else if what == 4 {
        FlashAction::Erased
    } else {
        FlashAction::Unknown(what as u8)
    }
}

/// Interpret and acknowledge one pending flash request.  Every
/// non-empty record is cleared exactly once, whatever it held; an
/// empty record is left alone.
pub fn handle_pending_flash(ipc: &mut Ipc, active_start: u32) -> (action: FlashAction)
    requires
        old(ipc).inv(),
        active_start <= 0xE000_0000,
    ensures
        final(ipc).inv(),
        action == spec_flash_decision(
            old(ipc).what as int,
            old(ipc).regs@[0] as int,
            old(ipc).regs@[1] as int,
            old(ipc).regs@[2] as int,
            active_start as int,
        ),
        old(ipc).what == 0 ==> *final(ipc) == *old(ipc),
        old(ipc).what != 0 ==> {
            &&& final(ipc).what == 0
            &&& final(ipc).consumed@ == old(ipc).consumed@ + 1
            &&& final(ipc).produced@ == old(ipc).produced@
        },
{
    let action = match ipc.read_what() {
        Ok(None) => {
            return FlashAction::NoRequest;
        },
        Ok(Some(IpcWhat::Init)) => {
            // A programming session must first mark the running image
            // booted, else the updater refuses the coming update.
            if ipc.regs[2] == Operation::Program.code() {
                FlashAction::MarkBooted
            } else {
                FlashAction::Initialised
            }
        },
        Ok(Some(IpcWhat::Deinit)) => {
            if ipc.regs[0] == Operation::Program.code() {
                FlashAction::MarkUpdatedAndReset
            } else {
                FlashAction::Deinitialised
            }
        },
        Ok(Some(IpcWhat::Program)) => {
            let addr = ipc.regs[0];
            let count = ipc.regs[1];
            let data_ptr = ipc.regs[2];
            if addr >= (FLASH_BASE + active_start) as usize && addr <= u32::MAX as usize {
                FlashAction::Program {
                    offset: flash_map_address(addr as u32, active_start),
                    count,
                    data_ptr,
                }
            } else {
                FlashAction::AddressOutOfRange
            }
        },
        Ok(Some(IpcWhat::Erase)) => {
            // Erasing happens as part of programming.
            FlashAction::Erased
        },
        Err(v) => FlashAction::Unknown(v),
    };
    ipc.what = 0;
    proof {
        ipc.consumed@ = ipc.consumed@ + 1;
    }
    action
}

} // verus!
