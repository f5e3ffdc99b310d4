//! The canned transfer packet that clears the target's debug-enable
//! bit.
//!
//! When a host disconnects without cleaning up, the probe itself sends
//! this packet through its own engine: one transfer batch that writes
//! the debug halting control register's address to the port's address
//! register and then writes the key-protected disable word.

use vstd::prelude::*;

verus! {

/// The command and framing bytes of the canned packet.
pub const TRANSFER_COMMAND_ID: u8 = 0x05;

pub const DAP_INDEX: u8 = 0x00;

pub const TRANSFER_COUNT: u8 = 0x02;

pub const TRANSFER_1_HEADER: u8 = 0x05;

pub const TRANSFER_2_HEADER: u8 = 0x0D;

/// The packet that sets up and writes the debug halting control and
/// status register.
pub open spec fn spec_dhcsr(debugen: bool) -> Seq<u8> {
    seq![
        TRANSFER_COMMAND_ID,
        DAP_INDEX,
        TRANSFER_COUNT,
        TRANSFER_1_HEADER,
        0xF0u8,
        0xEDu8,
        0x00u8,
        0xE0u8,
        TRANSFER_2_HEADER,
        (if debugen {
            0x01u8
        } else {
            0x00u8
        }) & 0x00u8,
        0x00u8,
        0x5Fu8,
        0xA0u8,
    ]
}

/// Build the packet.  The debug-enable bit is masked by the write
/// pattern's low byte, which holds it low either way.
pub fn dhcsr(debugen: bool) -> (r: Vec<u8>)
    ensures
        r@ == spec_dhcsr(debugen),
        r@.len() == 13,
{
    let mut data: Vec<u8> = Vec::new();
    data.push(TRANSFER_COMMAND_ID);
    data.push(DAP_INDEX);
    data.push(TRANSFER_COUNT);
    data.push(TRANSFER_1_HEADER);
    data.push(0xF0);
    data.push(0xED);
    data.push(0x00);
    data.push(0xE0);
    data.push(TRANSFER_2_HEADER);
    data.push((if debugen {
        0x01u8
    } else {
        0x00u8
    }) & 0x00);
    data.push(0x00);
    data.push(0x5F);
    data.push(0xA0);
    proof {
        assert(data@ =~= spec_dhcsr(debugen));
    }
    data
}

/// The packet a closing session sends to release the target.
pub fn dhcsr_clear_debugen() -> (r: Vec<u8>)
    ensures
        r@ == spec_dhcsr(false),
{
    dhcsr(false)
}

} // verus!
