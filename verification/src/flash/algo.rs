//! The flash-algorithm side of the bridge: the four entry points a
//! host flashing tool invokes by address, and the layout arithmetic of
//! the reserved RAM region their trampoline lives in.
//!
//! Each entry point packages its arguments into the shared record and
//! then waits for the acknowledgement ([`Ipc::done`]); the wait loop
//! itself runs outside this crate, on the probed core.

use vstd::prelude::*;

use super::ipc::{spec_what_code, Ipc, IpcWhat};

verus! {

/// The operation argument the host flashing tool passes to `init` and
/// `uninit`.
#[derive(Clone, Copy, PartialEq, Eq, Structural, Debug)]
pub enum Operation {
    Erase,
    Program,
    Verify,
}

/// The wire code of each operation.
pub open spec fn spec_operation_code(op: Operation) -> int {
    match op {
        Operation::Erase => 1,
        Operation::Program => 2,
        Operation::Verify => 3,
    }
}

impl Operation {
    pub fn code(self) -> (c: usize)
        ensures
            c as int == spec_operation_code(self),
    {
        match self {
            Operation::Erase => 1,
            Operation::Program => 2,
            Operation::Verify => 3,
        }
    }

    /// Decode an operation argument.
    pub fn try_from(v: usize) -> (r: Option<Operation>)
        ensures
            r == (if v == 1 {
                Some(Operation::Erase)
            } else if v == 2 {
                Some(Operation::Program)
            } else if v == 3 {
                Some(Operation::Verify)
            } else {
                None::<Operation>
            }),
    {
        match v {
            1 => Some(Operation::Erase),
            2 => Some(Operation::Program),
            3 => Some(Operation::Verify),
            _ => None,
        }
    }
}

/// Base of the RAM region reserved for the flash algorithm.
pub const RESERVED_BASE_ADDRESS: usize = 0x2000_0000;

/// Size of the reserved RAM region.
pub const RESERVED_SIZE: usize = 1024;

/// Size of one function-table entry: a 32-bit function pointer.
pub const TABLE_ENTRY_SIZE: usize = 4;

/// The four entry points: `init`, `uninit`, `program_page`,
/// `erase_sector`.
pub const TABLE_ENTRIES: usize = 4;

/// Size of the flashing tool's instruction header preceding the
/// trampoline stubs.
pub const HEADER_SIZE: usize = 4;

/// The function table sits at the very end of the reserved region.
pub fn table_base_address() -> (r: usize)
    ensures
        r == RESERVED_BASE_ADDRESS + RESERVED_SIZE - TABLE_ENTRY_SIZE * TABLE_ENTRIES,
        r == 0x2000_03F0,
{
    RESERVED_BASE_ADDRESS + RESERVED_SIZE - TABLE_ENTRY_SIZE * TABLE_ENTRIES
}

/// The flashing tool loads the trampoline stubs just past its header:
/// this address is part of its loading contract and must not move.
pub fn load_address() -> (r: usize)
    ensures
        r == RESERVED_BASE_ADDRESS + HEADER_SIZE,
        r == 0x2000_0004,
{
    RESERVED_BASE_ADDRESS + HEADER_SIZE
}

/// Each stub loads its table slot through the same PC-relative offset:
/// the span from the stubs to the table, minus the header and the
/// four-byte PC bias of the load instruction.
pub fn lookup_delta() -> (r: usize)
    ensures
        r == RESERVED_SIZE - HEADER_SIZE - TABLE_ENTRY_SIZE * TABLE_ENTRIES - 4,
        r == 0x3E8,
{
    RESERVED_SIZE - HEADER_SIZE - TABLE_ENTRY_SIZE * TABLE_ENTRIES - 4
}

/// Entry point `init`: request session initialisation.
pub fn init(ipc: &mut Ipc, address: usize, clock_or_zero: usize, op: Operation) -> (posted: bool)
    requires
        old(ipc).inv(),
    ensures
        final(ipc).inv(),
        posted == (old(ipc).what == 0),
        posted ==> final(ipc).what as int == spec_what_code(IpcWhat::Init) && final(ipc).regs@
            == seq![address, clock_or_zero, (spec_operation_code(op) as usize)],
        !posted ==> *final(ipc) == *old(ipc),
{
    let code = op.code();
    let posted = ipc.post(IpcWhat::Init, [address, clock_or_zero, code]);
    proof {
        assert([address, clock_or_zero, code]@ =~= seq![
            address,
            clock_or_zero,
            (spec_operation_code(op) as usize),
        ]);
    }
    posted
}

/// Entry point `uninit`: request session teardown.
pub fn uninit(ipc: &mut Ipc, op: Operation) -> (posted: bool)
    requires
        old(ipc).inv(),
    ensures
        final(ipc).inv(),
        posted == (old(ipc).what == 0),
        posted ==> final(ipc).what as int == spec_what_code(IpcWhat::Deinit) && final(ipc).regs@
            == seq![(spec_operation_code(op) as usize), 0usize, 0usize],
        !posted ==> *final(ipc) == *old(ipc),
{
    let code = op.code();
    let posted = ipc.post(IpcWhat::Deinit, [code, 0, 0]);
    proof {
        assert([code, 0usize, 0usize]@ =~= seq![
            (spec_operation_code(op) as usize),
            0usize,
            0usize,
        ]);
    }
    posted
}

/// Entry point `program_page`: request `byte_len` bytes from `buffer`
/// to be programmed at the given runtime address.
pub fn program_page(ipc: &mut Ipc, address: usize, byte_len: usize, buffer: usize) -> (posted:
    bool)
    requires
        old(ipc).inv(),
    ensures
        final(ipc).inv(),
        posted == (old(ipc).what == 0),
        posted ==> final(ipc).what as int == spec_what_code(IpcWhat::Program) && final(ipc).regs@
            == seq![address, byte_len, buffer],
        !posted ==> *final(ipc) == *old(ipc),
{
    let posted = ipc.post(IpcWhat::Program, [address, byte_len, buffer]);
    proof {
        assert([address, byte_len, buffer]@ =~= seq![address, byte_len, buffer]);
    }
    posted
}

/// Entry point `erase_sector`: request an erase at the given runtime
/// address.
pub fn erase_sector(ipc: &mut Ipc, address: usize) -> (posted: bool)
    requires
        old(ipc).inv(),
    ensures
        final(ipc).inv(),
        posted == (old(ipc).what == 0),
        posted ==> final(ipc).what as int == spec_what_code(IpcWhat::Erase) && final(ipc).regs@
            == seq![address, 0usize, 0usize],
        !posted ==> *final(ipc) == *old(ipc),
{
    let posted = ipc.post(IpcWhat::Erase, [address, 0, 0]);
    proof {
        assert([address, 0usize, 0usize]@ =~= seq![address, 0usize, 0usize]);
    }
    posted
}

} // verus!
