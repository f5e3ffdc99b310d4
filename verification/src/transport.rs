//! Bit-banged SWD transport.
//!
//! [`Transport`] implements the electrical protocol over a pair
//! of debug-port pins reached through the [`SwdPins`] trait: an 8-bit
//! request, a turnaround and a 3-bit acknowledge, then a 32-bit data
//! phase with a parity bit, and the mandatory bus-recovery idle bits
//! after any non-OK acknowledge.  The wire itself is modelled as two
//! bit streams, so every contract states exactly which bits are driven
//! and how the incoming bits decode.

use vstd::prelude::*;

use crate::bits::{
    byte_bits, lemma_pow2i_pos, lemma_stream_drop_bit, lemma_stream_drop_drop,
    lemma_stream_val_bound, nth_bit, pow2i, stream_bit, stream_drop, stream_val, word_bits,
};
use crate::driver::{SwdDriver, Txn};
use crate::swd::{
    make_request, parity32, spec_ack_result, spec_parity32, spec_request_byte, APnDP, DPRegister,
    RnW, SwdError, SwdResult,
};
use crate::swj::Swj;

verus! {

/// Pin-level access to the debug port lines.  An implementation drives
/// the clock itself: one call of `write_bit` or `read_bit` is one full
/// clock period, including any electrical half-period delays.  A board
/// supplies the real pin registers; a simulator supplies a script.
pub trait SwdPins: Sized {
    /// Bits still to be presented by the target, first bit next.
    spec fn in_bits(&self) -> Seq<bool>;

    /// Every bit driven onto the data line so far.
    spec fn out_bits(&self) -> Seq<bool>;

    /// Whether the probe is attached to (driving) the port.
    spec fn attached(&self) -> bool;

    /// Drive one bit onto the data line for one clock period.
    fn write_bit(&mut self, bit: bool)
        ensures
            final(self).out_bits() == old(self).out_bits().push(bit),
            final(self).in_bits() == old(self).in_bits(),
            final(self).attached() == old(self).attached(),
    ;

    /// Sample the data line for one clock period.  An exhausted stream
    /// reads low.
    fn read_bit(&mut self) -> (b: bool)
        ensures
            b == stream_bit(old(self).in_bits(), 0),
            final(self).in_bits() == stream_drop(old(self).in_bits(), 1),
            final(self).out_bits() == old(self).out_bits(),
            final(self).attached() == old(self).attached(),
    ;

    /// Attach to or detach from the port (detaching is high impedance).
    fn set_attach(&mut self, on: bool)
        ensures
            final(self).attached() == on,
            final(self).in_bits() == old(self).in_bits(),
            final(self).out_bits() == old(self).out_bits(),
    ;
}

/// The acknowledge value carried by an incoming stream: one turnaround
/// bit, then three acknowledge bits, least significant first.
pub open spec fn spec_ack_bits(s: Seq<bool>) -> int {
    stream_val(stream_drop(s, 1), 3)
}

/// The data word of a read transaction (bits 4..36 of the stream).
pub open spec fn spec_read_word(s: Seq<bool>) -> int {
    stream_val(stream_drop(s, 4), 32)
}

/// The parity bit of a read transaction (bit 36 of the stream).
pub open spec fn spec_read_parity(s: Seq<bool>) -> bool {
    stream_bit(s, 36)
}

/// What a read transaction returns, given the incoming stream: the ack
/// decides; on OK the word is accepted exactly when the received parity
/// bit equals the word's population-count parity.
pub open spec fn spec_read_outcome(s: Seq<bool>) -> SwdResult<u32> {
    let ack = spec_ack_bits(s);
    if ack == 1 {
        if spec_read_parity(s) == spec_parity32(spec_read_word(s) as u32) {
            Ok(spec_read_word(s) as u32)
        } else {
            Err(SwdError::BadParity)
        }
    } else if ack == 2 {
        Err(SwdError::AckWait)
    } else if ack == 4 {
        Err(SwdError::AckFault)
    } else {
        Err(SwdError::AckUnknown)
    }
}

/// How many incoming bits a read transaction consumes: turnaround and
/// acknowledge always; data, parity and the closing turnaround only
/// after an OK acknowledge.
pub open spec fn spec_read_consumed(s: Seq<bool>) -> int {
    if spec_ack_bits(s) == 1 {
        38
    } else {
        4
    }
}

/// What a write transaction returns, given the incoming stream.
pub open spec fn spec_write_outcome(s: Seq<bool>) -> SwdResult<()> {
    spec_ack_result(spec_ack_bits(s))
}

/// The bits a write transaction drives after its request byte: on OK
/// the data word, its parity and eight idle bits; on any other
/// acknowledge only the eight bus-recovery idle bits.
pub open spec fn spec_write_tail(s: Seq<bool>, data: u32) -> Seq<bool> {
    if spec_ack_bits(s) == 1 {
        word_bits(data).push(spec_parity32(data)) + byte_bits(0)
    } else {
        byte_bits(0)
    }
}

/// Splitting the head off a stream halves its value.
proof fn lemma_stream_val_shift(s: Seq<bool>, n: int)
    requires
        n >= 0,
    ensures
        stream_val(s, n + 1) == (if stream_bit(s, 0) {
            1int
        } else {
            0int
        }) + 2 * stream_val(stream_drop(s, 1), n),
    decreases n,
{
    if n == 0 {
        assert(pow2i(0) == 1);
        assert(stream_val(s, 1) == stream_val(s, 0) + if stream_bit(s, 0) {
            pow2i(0)
        } else {
            0int
        });
        assert(stream_val(stream_drop(s, 1), 0) == 0);
    } else {
        lemma_stream_val_shift(s, n - 1);
        lemma_stream_drop_bit(s, 1, n - 1);
        lemma_pow2i_pos(n - 1);
        assert(pow2i(n) == 2 * pow2i(n - 1));
        assert(stream_val(s, n + 1) == stream_val(s, n) + if stream_bit(s, n) {
            pow2i(n)
        } else {
            0int
        });
        assert(stream_val(stream_drop(s, 1), n) == stream_val(stream_drop(s, 1), n - 1)
            + if stream_bit(stream_drop(s, 1), n - 1) {
            pow2i(n - 1)
        } else {
            0int
        });
        assert(stream_bit(stream_drop(s, 1), n - 1) == stream_bit(s, n));
    }
}


/// A read transaction accepts its data word exactly when the received
/// parity bit equals the word's population-count parity; a transaction
/// whose parity bit is flipped is rejected as a parity error, not as
/// any other failure.
pub proof fn lemma_parity_acceptance(s: Seq<bool>)
    requires
        spec_ack_bits(s) == 1,
    ensures
        spec_read_outcome(s) == Ok::<u32, SwdError>(spec_read_word(s) as u32) <==> spec_read_parity(
            s,
        ) == spec_parity32(spec_read_word(s) as u32),
        spec_read_parity(s) != spec_parity32(spec_read_word(s) as u32) ==> spec_read_outcome(s)
            == Err::<u32, SwdError>(SwdError::BadParity),
{
}

/// The bit-banged SWD transport over a pin pair.
pub struct Transport<P: SwdPins> {
    pub pins: P,
    pub max_frequency: u32,
    pub cpu_frequency: u32,
    pub log: Ghost<Seq<Txn>>,
}

impl<P: SwdPins> Transport<P> {
    /// Take over a pin pair; the wire clock starts at a conservative
    /// default rate.
    pub fn new(cpu_frequency: u32, pins: P) -> (r: Transport<P>)
        ensures
            r.pins == pins,
            r.max_frequency == 100_000,
            r.cpu_frequency == cpu_frequency,
            r.log@ == Seq::<Txn>::empty(),
    {
        Transport { pins, max_frequency: 100_000, cpu_frequency, log: Ghost(Seq::empty()) }
    }

    /// Accept a new wire clock if this core can still generate it.
    pub fn set_clock_inner(&mut self, max_frequency: u32) -> (ok: bool)
        ensures
            ok == (max_frequency < old(self).cpu_frequency),
            final(self).max_frequency == if ok {
                max_frequency
            } else {
                old(self).max_frequency
            },
            final(self).cpu_frequency == old(self).cpu_frequency,
            final(self).pins == old(self).pins,
            final(self).log == old(self).log,
    {
        if max_frequency < self.cpu_frequency {
            self.max_frequency = max_frequency;
            true
        } else {
            false
        }
    }

    /// Drive the `n` lowest bits of a byte, least significant first.
    pub(crate) fn tx_bits(&mut self, data: u8, n: u32) -> (r: ())
        requires
            n <= 8,
        ensures
            final(self).pins.out_bits() == old(self).pins.out_bits() + Seq::new(
                n as nat,
                |i: int| nth_bit(data as int, i),
            ),
            final(self).pins.in_bits() == old(self).pins.in_bits(),
            final(self).pins.attached() == old(self).pins.attached(),
            final(self).max_frequency == old(self).max_frequency,
            final(self).cpu_frequency == old(self).cpu_frequency,
            final(self).log == old(self).log,
    {
        let mut cur: u8 = data;
        let mut i: u32 = 0;
        proof {
            assert(old(self).pins.out_bits() + Seq::new(0nat, |k: int| nth_bit(data as int, k))
                =~= old(self).pins.out_bits());
        }
        while i < n
            invariant
                i <= n,
                n <= 8,
                cur as int == data as int / pow2i(i as int),
                self.pins.out_bits() == old(self).pins.out_bits() + Seq::new(
                    i as nat,
                    |k: int| nth_bit(data as int, k),
                ),
                self.pins.in_bits() == old(self).pins.in_bits(),
                self.pins.attached() == old(self).pins.attached(),
                self.max_frequency == old(self).max_frequency,
                self.cpu_frequency == old(self).cpu_frequency,
                self.log == old(self).log,
            decreases n - i,
        {
            let bit = cur % 2 == 1;
            proof {
                lemma_pow2i_pos(i as int);
                assert(bit == nth_bit(data as int, i as int));
            }
            self.pins.write_bit(bit);
            proof {
                assert(self.pins.out_bits() =~= old(self).pins.out_bits() + Seq::new(
                    (i + 1) as nat,
                    |k: int| nth_bit(data as int, k),
                ));
                lemma_pow2i_pos(i as int);
                vstd::arithmetic::div_mod::lemma_div_denominator(
                    data as int,
                    pow2i(i as int),
                    2,
                );
                assert(pow2i(i as int + 1) == 2 * pow2i(i as int));
                assert(pow2i(i as int) * 2 == 2 * pow2i(i as int)) by (nonlinear_arith);
            }
            cur = cur / 2;
            i = i + 1;
        }
    }

    /// Drive a full byte, least significant bit first.
    fn tx8(&mut self, data: u8)
        ensures
            final(self).pins.out_bits() == old(self).pins.out_bits() + byte_bits(data),
            final(self).pins.in_bits() == old(self).pins.in_bits(),
            final(self).pins.attached() == old(self).pins.attached(),
            final(self).max_frequency == old(self).max_frequency,
            final(self).cpu_frequency == old(self).cpu_frequency,
            final(self).log == old(self).log,
    {
        self.tx_bits(data, 8);
        proof {
            assert(Seq::new(8nat, |k: int| nth_bit(data as int, k)) =~= byte_bits(data));
        }
    }

    /// Sample `n` bits, least significant first.
    fn rx_bits(&mut self, n: u32) -> (r: u8)
        requires
            n <= 8,
        ensures
            r as int == stream_val(old(self).pins.in_bits(), n as int),
            final(self).pins.in_bits() == stream_drop(old(self).pins.in_bits(), n as int),
            final(self).pins.out_bits() == old(self).pins.out_bits(),
            final(self).pins.attached() == old(self).pins.attached(),
            final(self).max_frequency == old(self).max_frequency,
            final(self).cpu_frequency == old(self).cpu_frequency,
            final(self).log == old(self).log,
    {
        let mut data: u16 = 0;
        let mut weight: u16 = 1;
        let mut i: u32 = 0;
        proof {
            assert(stream_drop(old(self).pins.in_bits(), 0) =~= old(self).pins.in_bits());
        }
        while i < n
            invariant
                i <= n,
                n <= 8,
                data as int == stream_val(old(self).pins.in_bits(), i as int),
                weight as int == pow2i(i as int),
                self.pins.in_bits() == stream_drop(old(self).pins.in_bits(), i as int),
                self.pins.out_bits() == old(self).pins.out_bits(),
                self.pins.attached() == old(self).pins.attached(),
                self.max_frequency == old(self).max_frequency,
                self.cpu_frequency == old(self).cpu_frequency,
                self.log == old(self).log,
            decreases n - i,
        {
            let b = self.pins.read_bit();
            proof {
                lemma_stream_drop_bit(old(self).pins.in_bits(), i as int, 0);
                lemma_stream_drop_drop(old(self).pins.in_bits(), i as int, 1);
                lemma_stream_val_bound(old(self).pins.in_bits(), i as int);
                lemma_pow2i_pos(i as int);
                assert(pow2i(i as int + 1) == 2 * pow2i(i as int));
                assert(pow2i(8) == 256) by {
                    reveal_with_fuel(pow2i, 9);
                }
                assert(pow2i(i as int) <= pow2i(8)) by {
                    lemma_pow2i_le(i as int, 8);
                }
            }
            if b {
                data = data + weight;
            }
            weight = weight * 2;
            i = i + 1;
        }
        proof {
            lemma_stream_val_bound(old(self).pins.in_bits(), n as int);
            assert(pow2i(n as int) <= pow2i(8)) by {
                lemma_pow2i_le(n as int, 8);
            }
            assert(pow2i(8) == 256) by {
                reveal_with_fuel(pow2i, 9);
            }
        }
        data as u8
    }

    /// Drive a data word and its parity bit.
    fn send_data(&mut self, data: u32, parity: bool)
        ensures
            final(self).pins.out_bits() == old(self).pins.out_bits() + word_bits(data).push(
                parity,
            ),
            final(self).pins.in_bits() == old(self).pins.in_bits(),
            final(self).pins.attached() == old(self).pins.attached(),
            final(self).max_frequency == old(self).max_frequency,
            final(self).cpu_frequency == old(self).cpu_frequency,
            final(self).log == old(self).log,
    {
        let mut cur: u32 = data;
        let mut i: u32 = 0;
        proof {
            assert(old(self).pins.out_bits() + Seq::new(0nat, |k: int| nth_bit(data as int, k))
                =~= old(self).pins.out_bits());
        }
        while i < 32
            invariant
                i <= 32,
                cur as int == data as int / pow2i(i as int),
                self.pins.out_bits() == old(self).pins.out_bits() + Seq::new(
                    i as nat,
                    |k: int| nth_bit(data as int, k),
                ),
                self.pins.in_bits() == old(self).pins.in_bits(),
                self.pins.attached() == old(self).pins.attached(),
                self.max_frequency == old(self).max_frequency,
                self.cpu_frequency == old(self).cpu_frequency,
                self.log == old(self).log,
            decreases 32 - i,
        {
            let bit = cur % 2 == 1;
            proof {
                lemma_pow2i_pos(i as int);
                assert(bit == nth_bit(data as int, i as int));
            }
            self.pins.write_bit(bit);
            proof {
                assert(self.pins.out_bits() =~= old(self).pins.out_bits() + Seq::new(
                    (i + 1) as nat,
                    |k: int| nth_bit(data as int, k),
                ));
                lemma_pow2i_pos(i as int);
                vstd::arithmetic::div_mod::lemma_div_denominator(
                    data as int,
                    pow2i(i as int),
                    2,
                );
                assert(pow2i(i as int + 1) == 2 * pow2i(i as int));
                assert(pow2i(i as int) * 2 == 2 * pow2i(i as int)) by (nonlinear_arith);
            }
            cur = cur / 2;
            i = i + 1;
        }
        self.pins.write_bit(parity);
        proof {
            assert(Seq::new(32nat, |k: int| nth_bit(data as int, k)) =~= word_bits(data));
            assert(self.pins.out_bits() =~= old(self).pins.out_bits() + word_bits(data).push(
                parity,
            ));
        }
    }

    /// Sample a data word and its parity bit.
    fn read_data(&mut self) -> (r: (u32, bool))
        ensures
            r.0 as int == stream_val(old(self).pins.in_bits(), 32),
            r.1 == stream_bit(old(self).pins.in_bits(), 32),
            final(self).pins.in_bits() == stream_drop(old(self).pins.in_bits(), 33),
            final(self).pins.out_bits() == old(self).pins.out_bits(),
            final(self).pins.attached() == old(self).pins.attached(),
            final(self).max_frequency == old(self).max_frequency,
            final(self).cpu_frequency == old(self).cpu_frequency,
            final(self).log == old(self).log,
    {
        let mut data: u64 = 0;
        let mut weight: u64 = 1;
        let mut i: u32 = 0;
        proof {
            assert(stream_drop(old(self).pins.in_bits(), 0) =~= old(self).pins.in_bits());
        }
        while i < 32
            invariant
                i <= 32,
                data as int == stream_val(old(self).pins.in_bits(), i as int),
                weight as int == pow2i(i as int),
                self.pins.in_bits() == stream_drop(old(self).pins.in_bits(), i as int),
                self.pins.out_bits() == old(self).pins.out_bits(),
                self.pins.attached() == old(self).pins.attached(),
                self.max_frequency == old(self).max_frequency,
                self.cpu_frequency == old(self).cpu_frequency,
                self.log == old(self).log,
            decreases 32 - i,
        {
            let b = self.pins.read_bit();
            proof {
                lemma_stream_drop_bit(old(self).pins.in_bits(), i as int, 0);
                lemma_stream_drop_drop(old(self).pins.in_bits(), i as int, 1);
                lemma_stream_val_bound(old(self).pins.in_bits(), i as int);
                lemma_pow2i_pos(i as int);
                assert(pow2i(i as int + 1) == 2 * pow2i(i as int));
                assert(pow2i(32) == 0x1_0000_0000) by {
                    reveal_with_fuel(pow2i, 33);
                }
                assert(pow2i(i as int) <= pow2i(32)) by {
                    lemma_pow2i_le(i as int, 32);
                }
            }
            if b {
                data = data + weight;
            }
            weight = weight * 2;
            i = i + 1;
        }
        let parity = self.pins.read_bit();
        proof {
            lemma_stream_drop_bit(old(self).pins.in_bits(), 32, 0);
            lemma_stream_drop_drop(old(self).pins.in_bits(), 32, 1);
            lemma_stream_val_bound(old(self).pins.in_bits(), 32);
            assert(pow2i(32) == 0x1_0000_0000) by {
                reveal_with_fuel(pow2i, 33);
            }
        }
        (data as u32, parity)
    }

    /// One full read transaction: request, acknowledge, data phase.
    /// After any non-OK acknowledge the transport drives eight idle
    /// bits to take the bus back before returning the error.
    pub fn read_txn(&mut self, apndp: APnDP, a: DPRegister) -> (r: SwdResult<u32>)
        ensures
            r == spec_read_outcome(old(self).pins.in_bits()),
            final(self).pins.in_bits() == stream_drop(
                old(self).pins.in_bits(),
                spec_read_consumed(old(self).pins.in_bits()),
            ),
            final(self).pins.out_bits() == old(self).pins.out_bits() + byte_bits(
                spec_request_byte(apndp, RnW::R, a) as u8,
            ) + byte_bits(0),
            final(self).pins.attached() == old(self).pins.attached(),
            final(self).max_frequency == old(self).max_frequency,
            final(self).cpu_frequency == old(self).cpu_frequency,
            final(self).log == old(self).log,
    {
        let ghost s = old(self).pins.in_bits();
        let req = make_request(apndp, RnW::R, a);
        self.tx8(req);
        let ack = self.rx_bits(4) / 2;
        proof {
            lemma_stream_val_shift(s, 3);
            lemma_stream_val_bound(stream_drop(s, 1), 3);
        }
        match crate::swd::ack_try_ok(ack) {
            Ok(_) => {},
            Err(e) => {
                self.tx8(0);
                proof {
                    assert(self.pins.out_bits() =~= old(self).pins.out_bits() + byte_bits(
                        spec_request_byte(apndp, RnW::R, a) as u8,
                    ) + byte_bits(0));
                }
                return Err(e);
            },
        }
        let (data, parity) = self.read_data();
        proof {
            lemma_stream_drop_drop(s, 4, 33);
            lemma_stream_drop_bit(s, 4, 32);
        }
        self.pins.read_bit();
        proof {
            lemma_stream_drop_drop(s, 37, 1);
        }
        self.tx8(0);
        proof {
            assert(self.pins.out_bits() =~= old(self).pins.out_bits() + byte_bits(
                spec_request_byte(apndp, RnW::R, a) as u8,
            ) + byte_bits(0));
        }
        if parity == parity32(data) {
            Ok(data)
        } else {
            Err(SwdError::BadParity)
        }
    }

    /// One full write transaction: request, acknowledge, data phase
    /// with computed parity, then eight idle bits; after a non-OK
    /// acknowledge only the eight bus-recovery idle bits are driven.
    pub fn write_txn(&mut self, apndp: APnDP, a: DPRegister, data: u32) -> (r: SwdResult<()>)
        ensures
            r == spec_write_outcome(old(self).pins.in_bits()),
            final(self).pins.in_bits() == stream_drop(old(self).pins.in_bits(), 5),
            final(self).pins.out_bits() == old(self).pins.out_bits() + byte_bits(
                spec_request_byte(apndp, RnW::W, a) as u8,
            ) + spec_write_tail(old(self).pins.in_bits(), data),
            final(self).pins.attached() == old(self).pins.attached(),
            final(self).max_frequency == old(self).max_frequency,
            final(self).cpu_frequency == old(self).cpu_frequency,
            final(self).log == old(self).log,
    {
        let ghost s = old(self).pins.in_bits();
        let req = make_request(apndp, RnW::W, a);
        self.tx8(req);
        let ack = (self.rx_bits(5) / 2) % 8;
        proof {
            lemma_stream_val_shift(s, 4);
            lemma_stream_val_bound(stream_drop(s, 1), 3);
            assert(stream_val(stream_drop(s, 1), 4) == stream_val(stream_drop(s, 1), 3) + if
                stream_bit(stream_drop(s, 1), 3) {
                pow2i(3)
            } else {
                0int
            });
            assert(pow2i(3) == 8) by {
                reveal_with_fuel(pow2i, 4);
            }
        }
        match crate::swd::ack_try_ok(ack) {
            Ok(_) => {},
            Err(e) => {
                self.tx8(0);
                proof {
                    assert(self.pins.out_bits() =~= old(self).pins.out_bits() + byte_bits(
                        spec_request_byte(apndp, RnW::W, a) as u8,
                    ) + spec_write_tail(s, data));
                }
                return Err(e);
            },
        }
        let parity = parity32(data);
        self.send_data(data, parity);
        self.tx8(0);
        proof {
            assert(self.pins.out_bits() =~= old(self).pins.out_bits() + byte_bits(
                spec_request_byte(apndp, RnW::W, a) as u8,
            ) + spec_write_tail(s, data));
        }
        Ok(())
    }
}

/// `pow2i` is monotone.
proof fn lemma_pow2i_le(a: int, b: int)
    requires
        a <= b,
    ensures
        pow2i(a) <= pow2i(b),
    decreases b,
{
    if b > 0 && a < b {
        lemma_pow2i_le(a, b - 1);
        lemma_pow2i_pos(b - 1);
    }
}

impl<P: SwdPins> SwdDriver<Swj<P>> for Transport<P> {
    open spec fn txn_log(&self) -> Seq<Txn> {
        self.log@
    }

    open spec fn clock_accepts(&self, max_frequency: u32) -> bool {
        max_frequency < self.cpu_frequency
    }

    /// A real wire decides outcomes; nothing is announced in advance.
    open spec fn future_outcomes(&self) -> Seq<crate::driver::TxnOutcome> {
        Seq::empty()
    }

    open spec fn spec_available() -> bool {
        true
    }

    fn available() -> (b: bool) {
        true
    }

    fn read_inner(&mut self, apndp: APnDP, a: DPRegister) -> (r: SwdResult<u32>) {
        let r = self.read_txn(apndp, a);
        proof {
            self.log@ = self.log@.push(Txn::Read { port: apndp, addr: a });
        }
        r
    }

    fn write_inner(&mut self, apndp: APnDP, a: DPRegister, data: u32) -> (r: SwdResult<()>) {
        let r = self.write_txn(apndp, a, data);
        proof {
            self.log@ = self.log@.push(Txn::Write { port: apndp, addr: a, data });
        }
        r
    }

    fn set_clock(&mut self, max_frequency: u32) -> (ok: bool) {
        self.set_clock_inner(max_frequency)
    }

    fn into_deps(self) -> Swj<P> {
        Swj { swd: self }
    }
}

} // verus!
