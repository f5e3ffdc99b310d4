//! Command identifiers and small protocol enums of the probe protocol.

use vstd::prelude::*;

verus! {

/// Which protocol framing the host negotiated; it decides the packet
/// size.
#[derive(Clone, Copy, PartialEq, Eq, Structural, Debug)]
pub enum DapVersion {
    V1,
    V2,
}

/// The commands the engine dispatches on.  Everything else (SWO, JTAG,
/// queued commands) is advertised as unavailable and never reachable.
#[allow(non_camel_case_types)]
#[derive(Clone, Copy, PartialEq, Eq, Structural, Debug)]
pub enum Command {
    DAP_Info,
    DAP_HostStatus,
    DAP_Connect,
    DAP_Disconnect,
    DAP_TransferConfigure,
    DAP_Transfer,
    DAP_TransferBlock,
    DAP_TransferAbort,
    DAP_WriteABORT,
    DAP_ResetTarget,
    DAP_SWJ_Pins,
    DAP_SWJ_Clock,
    DAP_SWJ_Sequence,
    DAP_SWD_Configure,
}

/// The wire identifier of each dispatched command.
pub open spec fn spec_command_id(c: Command) -> int {
    match c {
        Command::DAP_Info => 0x00,
        Command::DAP_HostStatus => 0x01,
        Command::DAP_Connect => 0x02,
        Command::DAP_Disconnect => 0x03,
        Command::DAP_TransferConfigure => 0x04,
        Command::DAP_Transfer => 0x05,
        Command::DAP_TransferBlock => 0x06,
        Command::DAP_TransferAbort => 0x07,
        Command::DAP_WriteABORT => 0x08,
        Command::DAP_ResetTarget => 0x0A,
        Command::DAP_SWJ_Pins => 0x10,
        Command::DAP_SWJ_Clock => 0x11,
        Command::DAP_SWJ_Sequence => 0x12,
        Command::DAP_SWD_Configure => 0x13,
    }
}

/// Which command a request byte names, if any that this probe serves.
pub open spec fn spec_command_of(b: u8) -> Option<Command> {
    if b == 0x00 {
        Some(Command::DAP_Info)
    } else if b == 0x01 {
        Some(Command::DAP_HostStatus)
    } else if b == 0x02 {
        Some(Command::DAP_Connect)
    } else if b == 0x03 {
        Some(Command::DAP_Disconnect)
    } else if b == 0x04 {
        Some(Command::DAP_TransferConfigure)
    } else if b == 0x05 {
        Some(Command::DAP_Transfer)
    } else if b == 0x06 {
        Some(Command::DAP_TransferBlock)
    } else if b == 0x07 {
        Some(Command::DAP_TransferAbort)
    } else if b == 0x08 {
        Some(Command::DAP_WriteABORT)
    } else if b == 0x0A {
        Some(Command::DAP_ResetTarget)
    } else if b == 0x10 {
        Some(Command::DAP_SWJ_Pins)
    } else if b == 0x11 {
        Some(Command::DAP_SWJ_Clock)
    } else if b == 0x12 {
        Some(Command::DAP_SWJ_Sequence)
    } else if b == 0x13 {
        Some(Command::DAP_SWD_Configure)
    } else {
        None
    }
}

impl Command {
    /// Decode a request byte.
    pub fn try_from_u8(b: u8) -> (r: Option<Command>)
        ensures
            r == spec_command_of(b),
    {
        match b {
            0x00 => Some(Command::DAP_Info),
            0x01 => Some(Command::DAP_HostStatus),
            0x02 => Some(Command::DAP_Connect),
            0x03 => Some(Command::DAP_Disconnect),
            0x04 => Some(Command::DAP_TransferConfigure),
            0x05 => Some(Command::DAP_Transfer),
            0x06 => Some(Command::DAP_TransferBlock),
            0x07 => Some(Command::DAP_TransferAbort),
            0x08 => Some(Command::DAP_WriteABORT),
            0x0A => Some(Command::DAP_ResetTarget),
            0x10 => Some(Command::DAP_SWJ_Pins),
            0x11 => Some(Command::DAP_SWJ_Clock),
            0x12 => Some(Command::DAP_SWJ_Sequence),
            0x13 => Some(Command::DAP_SWD_Configure),
            _ => None,
        }
    }

    /// The byte echoed as the first response byte.
    pub fn id(self) -> (r: u8)
        ensures
            r as int == spec_command_id(self),
    {
        match self {
            Command::DAP_Info => 0x00,
            Command::DAP_HostStatus => 0x01,
            Command::DAP_Connect => 0x02,
            Command::DAP_Disconnect => 0x03,
            Command::DAP_TransferConfigure => 0x04,
            Command::DAP_Transfer => 0x05,
            Command::DAP_TransferBlock => 0x06,
            Command::DAP_TransferAbort => 0x07,
            Command::DAP_WriteABORT => 0x08,
            Command::DAP_ResetTarget => 0x0A,
            Command::DAP_SWJ_Pins => 0x10,
            Command::DAP_SWJ_Clock => 0x11,
            Command::DAP_SWJ_Sequence => 0x12,
            Command::DAP_SWD_Configure => 0x13,
        }
    }
}

/// The information items a `DAP_Info` request can ask for.
#[derive(Clone, Copy, PartialEq, Eq, Structural, Debug)]
pub enum DapInfoID {
    VendorID,
    ProductID,
    SerialNumber,
    FirmwareVersion,
    TargetVendor,
    TargetName,
    Capabilities,
    SWOTraceBufferSize,
    MaxPacketCount,
    MaxPacketSize,
}

/// Which information item an identifier byte names.
pub open spec fn spec_info_id_of(b: u8) -> Option<DapInfoID> {
    if b == 0x01 {
        Some(DapInfoID::VendorID)
    } else if b == 0x02 {
        Some(DapInfoID::ProductID)
    } else if b == 0x03 {
        Some(DapInfoID::SerialNumber)
    } else if b == 0x04 {
        Some(DapInfoID::FirmwareVersion)
    } else if b == 0x05 {
        Some(DapInfoID::TargetVendor)
    } else if b == 0x06 {
        Some(DapInfoID::TargetName)
    } else if b == 0xF0 {
        Some(DapInfoID::Capabilities)
    } else if b == 0xFD {
        Some(DapInfoID::SWOTraceBufferSize)
    } else if b == 0xFE {
        Some(DapInfoID::MaxPacketCount)
    } else if b == 0xFF {
        Some(DapInfoID::MaxPacketSize)
    } else {
        None
    }
}

impl DapInfoID {
    pub fn try_from_u8(b: u8) -> (r: Option<DapInfoID>)
        ensures
            r == spec_info_id_of(b),
    {
        match b {
            0x01 => Some(DapInfoID::VendorID),
            0x02 => Some(DapInfoID::ProductID),
            0x03 => Some(DapInfoID::SerialNumber),
            0x04 => Some(DapInfoID::FirmwareVersion),
            0x05 => Some(DapInfoID::TargetVendor),
            0x06 => Some(DapInfoID::TargetName),
            0xF0 => Some(DapInfoID::Capabilities),
            0xFD => Some(DapInfoID::SWOTraceBufferSize),
            0xFE => Some(DapInfoID::MaxPacketCount),
            0xFF => Some(DapInfoID::MaxPacketSize),
            _ => None,
        }
    }
}

/// The port a `DAP_Connect` request asks for.
#[derive(Clone, Copy, PartialEq, Eq, Structural, Debug)]
pub enum ConnectPort {
    Default,
    SWD,
    JTAG,
}

pub open spec fn spec_connect_port_of(b: u8) -> Option<ConnectPort> {
    if b == 0 {
        Some(ConnectPort::Default)
    } else if b == 1 {
        Some(ConnectPort::SWD)
    } else if b == 2 {
        Some(ConnectPort::JTAG)
    } else {
        None
    }
}

impl ConnectPort {
    pub fn try_from_u8(b: u8) -> (r: Option<ConnectPort>)
        ensures
            r == spec_connect_port_of(b),
    {
        match b {
            0 => Some(ConnectPort::Default),
            1 => Some(ConnectPort::SWD),
            2 => Some(ConnectPort::JTAG),
            _ => None,
        }
    }
}

/// The byte a `DAP_Connect` response reports: the connected port, or
/// failure.
pub const CONNECT_RESPONSE_FAILED: u8 = 0;

pub const CONNECT_RESPONSE_SWD: u8 = 1;

/// A host status notification: is a debugger attached, is the target
/// running.
#[derive(Clone, Copy, PartialEq, Eq, Structural, Debug)]
pub enum HostStatus {
    Connected(bool),
    Running(bool),
}

/// Which kind of status a `DAP_HostStatus` request carries.
pub open spec fn spec_host_status_of(type_byte: u8, asserted: bool) -> Option<HostStatus> {
    if type_byte == 0 {
        Some(HostStatus::Connected(asserted))
    } else if type_byte == 1 {
        Some(HostStatus::Running(asserted))
    } else {
        None
    }
}

/// Sink for host status notifications, typically driving LEDs.  The
/// ghost log records every status delivered, so that callers can state
/// what the engine forwarded.
pub trait DapLeds: Sized {
    /// Every status delivered so far.
    spec fn statuses(&self) -> Seq<HostStatus>;

    /// React to host status, usually setting some LEDs.
    fn react_to_host_status(&mut self, host_status: HostStatus)
        ensures
            final(self).statuses() == old(self).statuses().push(host_status),
    ;
}

/// The success and failure status bytes of simple responses.
pub const DAP_OK: u8 = 0x00;

pub const DAP_ERROR: u8 = 0xFF;

} // verus!
