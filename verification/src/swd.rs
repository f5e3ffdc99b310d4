//! SWD protocol codec: request framing, acknowledge decoding and parity.
//!
//! Everything here is pure computation on plain values; the electrical
//! side of the protocol lives in the transport module.

use vstd::prelude::*;

verus! {

/// Which register space a transfer addresses: Debug Port or Access Port.
#[derive(Clone, Copy, PartialEq, Eq, Structural, Debug)]
pub enum APnDP {
    DP,
    AP,
}

/// Transfer direction: write or read.
#[derive(Clone, Copy, PartialEq, Eq, Structural, Debug)]
pub enum RnW {
    W,
    R,
}

/// The four two-bit debug port register addresses.
#[derive(Clone, Copy, PartialEq, Eq, Structural, Debug)]
pub enum DPRegister {
    DPIDR,
    CTRLSTAT,
    SELECT,
    RDBUFF,
}

/// How a single SWD transaction can fail.
#[derive(Clone, Copy, PartialEq, Eq, Structural, Debug)]
pub enum SwdError {
    /// The target acknowledged with WAIT.
    AckWait,
    /// The target acknowledged with FAULT.
    AckFault,
    /// The acknowledge bits were none of OK, WAIT, FAULT.
    AckUnknown,
    /// The received data parity bit did not match the data.
    BadParity,
}

pub type SwdResult<T> = core::result::Result<T, SwdError>;

impl APnDP {
    /// The port bit of the request byte.
    pub open spec fn spec_bit(self) -> int {
        match self {
            APnDP::DP => 0,
            APnDP::AP => 1,
        }
    }
}

impl RnW {
    /// The direction bit of the request byte.
    pub open spec fn spec_bit(self) -> int {
        match self {
            RnW::W => 0,
            RnW::R => 1,
        }
    }
}

impl DPRegister {
    /// The two-bit register address.
    pub open spec fn spec_code(self) -> int {
        match self {
            DPRegister::DPIDR => 0,
            DPRegister::CTRLSTAT => 1,
            DPRegister::SELECT => 2,
            DPRegister::RDBUFF => 3,
        }
    }

    /// The two-bit register address as an executable value.
    pub fn code(self) -> (c: u8)
        ensures
            c as int == self.spec_code(),
    {
        match self {
            DPRegister::DPIDR => 0,
            DPRegister::CTRLSTAT => 1,
            DPRegister::SELECT => 2,
            DPRegister::RDBUFF => 3,
        }
    }

    /// Decode a two-bit register address.
    pub fn from_code(c: u8) -> (r: Option<DPRegister>)
        ensures
            c < 4 <==> r is Some,
            c < 4 ==> r == Some(spec_reg_from_code(c as int)),
    {
        match c {
            0 => Some(DPRegister::DPIDR),
            1 => Some(DPRegister::CTRLSTAT),
            2 => Some(DPRegister::SELECT),
            3 => Some(DPRegister::RDBUFF),
            _ => None,
        }
    }
}

/// The register a two-bit address code names.
pub open spec fn spec_reg_from_code(c: int) -> DPRegister {
    if c == 0 {
        DPRegister::DPIDR
    } else if c == 1 {
        DPRegister::CTRLSTAT
    } else if c == 2 {
        DPRegister::SELECT
    } else {
        DPRegister::RDBUFF
    }
}

/// The request byte of an SWD transaction, least significant bit first:
/// start (1), port, direction, the two address bits, their parity,
/// stop (0), park (1).
pub open spec fn spec_request_byte(apndp: APnDP, rnw: RnW, a: DPRegister) -> int {
    let port = apndp.spec_bit();
    let dir = rnw.spec_bit();
    let a2 = a.spec_code() % 2;
    let a3 = a.spec_code() / 2;
    let parity = (port + dir + a2 + a3) % 2;
    1 + 2 * port + 4 * dir + 8 * a2 + 16 * a3 + 32 * parity + 128
}

/// Build the 8-bit SWD request for a register access.
pub fn make_request(apndp: APnDP, rnw: RnW, a: DPRegister) -> (r: u8)
    ensures
        r as int == spec_request_byte(apndp, rnw, a),
{
    let port: u8 = if let APnDP::AP = apndp { 1 } else { 0 };
    let dir: u8 = if let RnW::R = rnw { 1 } else { 0 };
    let code = a.code();
    let a2: u8 = code % 2;
    let a3: u8 = code / 2;
    let parity: u8 = (port + dir + a2 + a3) % 2;
    1 + 2 * port + 4 * dir + 8 * a2 + 16 * a3 + 32 * parity + 128
}

/// How the three acknowledge bits (least significant bit first) decode.
pub open spec fn spec_ack_result(ack: int) -> SwdResult<()> {
    if ack == 1 {
        Ok(())
    } else if ack == 2 {
        Err(SwdError::AckWait)
    } else if ack == 4 {
        Err(SwdError::AckFault)
    } else {
        Err(SwdError::AckUnknown)
    }
}

/// Decode a three-bit acknowledge value.
pub fn ack_try_ok(ack: u8) -> (r: SwdResult<()>)
    ensures
        r == spec_ack_result(ack as int),
{
    match ack {
        1 => Ok(()),
        2 => Err(SwdError::AckWait),
        4 => Err(SwdError::AckFault),
        _ => Err(SwdError::AckUnknown),
    }
}

/// Bit `i` of a 32-bit word.
pub open spec fn word_bit(w: u32, i: int) -> bool {
    (w >> (i as u32)) & 1 == 1
}

/// Number of set bits among the `n` lowest bits of `w`.
pub open spec fn pop_prefix(w: u32, n: int) -> int
    decreases n,
{
    if n <= 0 {
        0
    } else {
        pop_prefix(w, n - 1) + if word_bit(w, n - 1) {
            1int
        } else {
            0int
        }
    }
}

/// Whether a 32-bit word has an odd number of set bits; this is the
/// parity bit that accompanies SWD data phases.
pub open spec fn spec_parity32(w: u32) -> bool {
    pop_prefix(w, 32) % 2 == 1
}

/// Compute the SWD data parity bit of a word.
pub fn parity32(w: u32) -> (b: bool)
    ensures
        b == spec_parity32(w),
{
    let mut acc: bool = false;
    let mut i: u32 = 0;
    while i < 32
        invariant
            i <= 32,
            acc == (pop_prefix(w, i as int) % 2 == 1),
        decreases 32 - i,
    {
        let bit = (w >> i) & 1 == 1;
        acc = acc != bit;
        i = i + 1;
    }
    acc
}

} // verus!
