//! Direct pin-level (SWJ) access to the debug port.
//!
//! While no SWD session is active the engine manipulates the port pins
//! directly: raw bit sequences, pin reads, clock negotiation and the
//! high-impedance idle state.  [`SwjDependencies`] is the capability the
//! engine requires for that; [`Swj`] is its bit-banged implementation,
//! which owns the same pin pair as the SWD transport and converts into
//! it losslessly when a session starts.

use vstd::prelude::*;

use crate::bits::nth_bit;
use crate::transport::{SwdPins, Transport};

verus! {

/// Mask of the debug-port pins a host may name in a pin command:
/// SWCLK, SWDIO, TDI, TDO, nTRST and nRESET.
pub const PINS_MASK: u8 = 0xAF;

/// A set of debug-port pins, one bit per pin.
#[derive(Clone, Copy, PartialEq, Eq, Structural, Debug)]
pub struct Pins(pub u8);

impl Pins {
    /// Keep only the bits that name real pins.
    pub fn from_bits_truncate(bits: u8) -> (r: Pins)
        ensures
            r.0 == bits & PINS_MASK,
    {
        Pins(bits & PINS_MASK)
    }

    pub fn bits(self) -> (r: u8)
        ensures
            r == self.0,
    {
        self.0
    }
}

/// The pin sequence a raw SWJ sequence command drives: for each byte,
/// up to eight of its bits, least significant first, until `bits` bits
/// have been driven or the payload ends.
pub open spec fn swj_seq_bits(bytes: Seq<u8>, bits: int) -> Seq<bool>
    decreases bytes.len(),
{
    if bytes.len() == 0 || bits <= 0 {
        Seq::empty()
    } else {
        let m = if bits < 8 {
            bits
        } else {
            8int
        };
        Seq::new(m as nat, |i: int| nth_bit(bytes[0] as int, i)) + swj_seq_bits(
            bytes.drop_first(),
            bits - m,
        )
    }
}

/// What the engine needs from the port while no SWD session is active.
/// `SWD` is the active-session form the capability converts into.
pub trait SwjDependencies<SWD>: Sized {
    /// Whether the probe currently drives the port.
    spec fn attached(&self) -> bool;

    /// Which active link this idle capability carries: the conversion
    /// between the two forms is lossless, and `holds` names its
    /// result.
    spec fn holds(&self, swd: SWD) -> bool;

    /// Whether this port can generate the given wire clock.
    spec fn clock_accepts(&self, max_frequency: u32) -> bool;

    /// Every raw bit clocked out by sequence commands so far.
    spec fn driven(&self) -> Seq<bool>;

    /// Apply `output` to the pins selected by `mask`, wait up to
    /// `wait_us` microseconds, and report the pin state read back.
    fn process_swj_pins(&mut self, output: Pins, mask: Pins, wait_us: u32) -> (r: Pins);

    /// Drive `bits` raw bits from `data` onto the port.
    fn process_swj_sequence(&mut self, data: &[u8], bits: usize)
        ensures
            final(self).attached(),
            final(self).driven() == old(self).driven() + swj_seq_bits(data@, bits as int),
    ;

    /// Negotiate the wire clock; returns whether the rate was accepted.
    fn process_swj_clock(&mut self, max_frequency: u32) -> (ok: bool)
        ensures
            ok == old(self).clock_accepts(max_frequency),
    ;

    /// Stop driving the port: all lines high impedance.
    fn high_impedance_mode(&mut self)
        ensures
            !final(self).attached(),
    ;

    /// Convert the idle capability into the active SWD form it holds.
    fn into_swd(self) -> (r: SWD)
        ensures
            self.holds(r),
    ;
}

/// The idle pin-control form of the bit-banged port: the same pin pair
/// as the transport, reinterpreted.
pub struct Swj<P: SwdPins> {
    pub swd: Transport<P>,
}

impl<P: SwdPins> Swj<P> {
    pub fn new(swd: Transport<P>) -> (r: Swj<P>)
        ensures
            r.swd == swd,
    {
        Swj { swd }
    }
}

impl<P: SwdPins> SwjDependencies<Transport<P>> for Swj<P> {
    open spec fn attached(&self) -> bool {
        self.swd.pins.attached()
    }

    open spec fn holds(&self, swd: Transport<P>) -> bool {
        swd == self.swd
    }

    open spec fn clock_accepts(&self, max_frequency: u32) -> bool {
        max_frequency < self.swd.cpu_frequency
    }

    open spec fn driven(&self) -> Seq<bool> {
        self.swd.pins.out_bits()
    }

    /// This port has no pin read-back path; the reply claims exactly
    /// the masked output bits, all other pins low.
    fn process_swj_pins(&mut self, output: Pins, mask: Pins, wait_us: u32) -> (r: Pins)
        ensures
            r.0 == output.0 & mask.0,
            *final(self) == *old(self),
    {
        Pins(output.0 & mask.0)
    }

    /// Attach to the port and clock the raw bits out.
    fn process_swj_sequence(&mut self, data: &[u8], bits: usize)
        ensures
            final(self).swd.pins.out_bits() == old(self).swd.pins.out_bits() + swj_seq_bits(
                data@,
                bits as int,
            ),
            final(self).swd.pins.in_bits() == old(self).swd.pins.in_bits(),
            final(self).swd.max_frequency == old(self).swd.max_frequency,
            final(self).swd.cpu_frequency == old(self).swd.cpu_frequency,
            final(self).swd.log == old(self).swd.log,
    {
        self.swd.pins.set_attach(true);
        let mut j: usize = 0;
        let mut rem: usize = bits;
        proof {
            assert(data@.skip(0) =~= data@);
        }
        while j < data.len()
            invariant
                j <= data@.len(),
                rem <= bits,
                self.swd.pins.out_bits() + swj_seq_bits(data@.skip(j as int), rem as int) == old(
                    self,
                ).swd.pins.out_bits() + swj_seq_bits(data@, bits as int),
                self.swd.pins.in_bits() == old(self).swd.pins.in_bits(),
                self.swd.pins.attached(),
                self.swd.max_frequency == old(self).swd.max_frequency,
                self.swd.cpu_frequency == old(self).swd.cpu_frequency,
                self.swd.log == old(self).swd.log,
            decreases data@.len() - j,
        {
            let byte = data[j];
            let frame_bits: usize = if rem < 8 {
                rem
            } else {
                8
            };
            let ghost pre = self.swd.pins.out_bits();
            let ghost tail = data@.skip(j as int);
            self.swd.tx_bits(byte, frame_bits as u32);
            proof {
                assert(tail.len() > 0);
                assert(tail[0] == data@[j as int]);
                assert(tail.drop_first() =~= data@.skip(j as int + 1));
                if rem > 0 {
                    assert(swj_seq_bits(tail, rem as int) == Seq::new(
                        frame_bits as nat,
                        |i: int| nth_bit(byte as int, i),
                    ) + swj_seq_bits(data@.skip(j as int + 1), rem as int - frame_bits as int));
                    assert(self.swd.pins.out_bits() + swj_seq_bits(
                        data@.skip(j as int + 1),
                        (rem - frame_bits) as int,
                    ) =~= pre + swj_seq_bits(tail, rem as int));
                } else {
                    assert(frame_bits == 0);
                    assert(Seq::new(0nat, |i: int| nth_bit(byte as int, i)) =~= Seq::<
                        bool,
                    >::empty());
                    assert(self.swd.pins.out_bits() =~= pre);
                    assert(swj_seq_bits(tail, 0) =~= swj_seq_bits(
                        data@.skip(j as int + 1),
                        0,
                    ));
                }
            }
            rem = rem - frame_bits;
            j = j + 1;
        }
        proof {
            assert(swj_seq_bits(data@.skip(data@.len() as int), rem as int) =~= Seq::<
                bool,
            >::empty());
            assert(self.swd.pins.out_bits() + Seq::<bool>::empty() =~= self.swd.pins.out_bits());
        }
    }

    /// The clock configuration lives with the pin pair; forward it.
    fn process_swj_clock(&mut self, max_frequency: u32) -> (ok: bool)
        ensures
            ok == (max_frequency < old(self).swd.cpu_frequency),
    {
        self.swd.set_clock_inner(max_frequency)
    }

    fn high_impedance_mode(&mut self)
        ensures
            final(self).swd.pins.in_bits() == old(self).swd.pins.in_bits(),
            final(self).swd.pins.out_bits() == old(self).swd.pins.out_bits(),
            final(self).swd.max_frequency == old(self).swd.max_frequency,
            final(self).swd.cpu_frequency == old(self).swd.cpu_frequency,
            final(self).swd.log == old(self).swd.log,
    {
        self.swd.pins.set_attach(false);
    }

    fn into_swd(self) -> (r: Transport<P>)
        ensures
            r == self.swd,
    {
        self.swd
    }
}

} // verus!
