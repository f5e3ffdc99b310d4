//! Simulated targets for exercising the probe without hardware.
//!
//! [`SimPins`] presents a scripted wire to the bit-banged transport.
//! [`ScriptDriver`] is a transaction-level link with a scripted outcome
//! per transaction and a transaction counter, the counting stub that
//! batch processing is tested against.  [`TargetDriver`] models a
//! debug target's register file with posted Access Port reads.

use vstd::prelude::*;

use crate::bits::{lemma_stream_val_of_bits, nth_bit, pow2i, stream_bit, stream_drop, word_bits};
use crate::driver::{SwdDriver, Txn, TxnOutcome};
use crate::swd::{APnDP, DPRegister, SwdError, SwdResult};
use crate::swj::{Pins, SwjDependencies};
use crate::transport::SwdPins;

verus! {


/// The turnaround bit and three acknowledge bits a target presents.
pub open spec fn ack_wire(ack: u8) -> Seq<bool> {
    seq![false] + Seq::new(3, |i: int| nth_bit(ack as int, i))
}

/// The full incoming wire image of one read transaction: turnaround,
/// acknowledge, 32 data bits, parity, closing turnaround.
pub open spec fn read_txn_wire(ack: u8, word: u32, parity: bool) -> Seq<bool> {
    ack_wire(ack) + word_bits(word) + seq![parity, false]
}

/// The incoming wire image of one write transaction: turnaround,
/// acknowledge, closing turnaround.
pub open spec fn write_txn_wire(ack: u8) -> Seq<bool> {
    ack_wire(ack) + seq![false]
}


/// A queued read transaction decodes on the wire exactly as built:
/// the acknowledge bits carry `ack`, the data bits `word`, the parity
/// bit `parity`; with an OK acknowledge the transport accepts the
/// word exactly when the parity matches its population count.
pub proof fn lemma_read_txn_wire_decodes(ack: u8, word: u32, parity: bool)
    requires
        ack < 8,
    ensures
        crate::transport::spec_ack_bits(read_txn_wire(ack, word, parity)) == ack as int,
        crate::transport::spec_read_word(read_txn_wire(ack, word, parity)) == word as int,
        crate::transport::spec_read_parity(read_txn_wire(ack, word, parity)) == parity,
        ack == 1 ==> crate::transport::spec_read_outcome(read_txn_wire(ack, word, parity)) == (
        if parity == crate::swd::spec_parity32(word) {
            Ok::<u32, SwdError>(word)
        } else {
            Err::<u32, SwdError>(SwdError::BadParity)
        }),
{
    let s = read_txn_wire(ack, word, parity);
    assert(s.len() == 38);
    assert(forall|j: int| 0 <= j < 3 ==> s[1 + j] == nth_bit(ack as int, j));
    assert(forall|j: int| 0 <= j < 32 ==> s[4 + j] == nth_bit(word as int, j));
    assert(s[36] == parity);
    let d1 = stream_drop(s, 1);
    assert(forall|j: int|
        0 <= j < 3 ==> stream_bit(d1, j) == nth_bit(ack as int, j)) by {
        assert(forall|j: int|
            0 <= j < 3 ==> stream_bit(d1, j) == #[trigger] stream_bit(s, 1 + j));
    }
    lemma_stream_val_of_bits(d1, ack as int, 3);
    assert(pow2i(3) == 8) by {
        reveal_with_fuel(pow2i, 4);
    }
    assert(ack as int % 8 == ack as int);
    let d4 = stream_drop(s, 4);
    assert(forall|j: int|
        0 <= j < 32 ==> stream_bit(d4, j) == nth_bit(word as int, j)) by {
        assert(forall|j: int|
            0 <= j < 32 ==> stream_bit(d4, j) == #[trigger] stream_bit(s, 4 + j));
    }
    lemma_stream_val_of_bits(d4, word as int, 32);
    assert(pow2i(32) == 0x1_0000_0000) by {
        reveal_with_fuel(pow2i, 33);
    }
    assert(word as int % 0x1_0000_0000 == word as int);
    assert(crate::transport::spec_read_parity(s) == stream_bit(s, 36));
}

/// A scripted pin pair: incoming bits come from a queue, driven bits
/// are recorded.
pub struct SimPins {
    pub input: Vec<bool>,
    pub pos: usize,
    pub driven: Vec<bool>,
    pub attach: bool,
}

impl SimPins {
    pub fn new() -> (r: SimPins)
        ensures
            r.input@.len() == 0,
            r.pos == 0,
            r.driven@.len() == 0,
            !r.attach,
    {
        SimPins { input: Vec::new(), pos: 0, driven: Vec::new(), attach: false }
    }

    /// Queue the wire image of one read transaction: a turnaround bit,
    /// the three acknowledge bits, 32 data bits, the parity bit and
    /// the closing turnaround, all least significant bit first.
    pub fn queue_read_txn(&mut self, ack: u8, word: u32, parity: bool)
        ensures
            final(self).input@ == old(self).input@ + read_txn_wire(ack, word, parity),
            final(self).pos == old(self).pos,
            final(self).driven == old(self).driven,
            final(self).attach == old(self).attach,
    {
        proof {
            assert(pow2i(2) == 4) by {
                reveal_with_fuel(pow2i, 3);
            }
        }
        self.input.push(false);
        self.input.push(ack % 2 == 1);
        self.input.push((ack / 2) % 2 == 1);
        self.input.push((ack / 4) % 2 == 1);
        let ghost head = old(self).input@ + ack_wire(ack);
        proof {
            assert(self.input@ =~= head + Seq::new(0nat, |k: int| nth_bit(word as int, k)));
        }
        let mut w = word;
        let mut i: usize = 0;
        while i < 32
            invariant
                i <= 32,
                w as int == word as int / pow2i(i as int),
                self.input@ == head + Seq::new(i as nat, |k: int| nth_bit(word as int, k)),
                self.pos == old(self).pos,
                self.driven == old(self).driven,
                self.attach == old(self).attach,
            decreases 32 - i,
        {
            proof {
                crate::bits::lemma_pow2i_pos(i as int);
            }
            self.input.push(w % 2 == 1);
            proof {
                assert(self.input@ =~= head + Seq::new(
                    (i + 1) as nat,
                    |k: int| nth_bit(word as int, k),
                ));
                vstd::arithmetic::div_mod::lemma_div_denominator(
                    word as int,
                    pow2i(i as int),
                    2,
                );
                assert(pow2i(i as int + 1) == 2 * pow2i(i as int));
                assert(pow2i(i as int) * 2 == 2 * pow2i(i as int)) by (nonlinear_arith);
            }
            w = w / 2;
            i = i + 1;
        }
        self.input.push(parity);
        self.input.push(false);
        proof {
            assert(Seq::new(32nat, |k: int| nth_bit(word as int, k)) =~= word_bits(word));
            assert(self.input@ =~= old(self).input@ + read_txn_wire(ack, word, parity));
        }
    }

    /// Queue the wire image of one write transaction's incoming part:
    /// a turnaround bit, the three acknowledge bits, and the closing
    /// turnaround.
    pub fn queue_write_txn(&mut self, ack: u8)
        ensures
            final(self).input@ == old(self).input@ + write_txn_wire(ack),
            final(self).pos == old(self).pos,
            final(self).driven == old(self).driven,
            final(self).attach == old(self).attach,
    {
        proof {
            assert(pow2i(2) == 4) by {
                reveal_with_fuel(pow2i, 3);
            }
        }
        self.input.push(false);
        self.input.push(ack % 2 == 1);
        self.input.push((ack / 2) % 2 == 1);
        self.input.push((ack / 4) % 2 == 1);
        self.input.push(false);
        proof {
            assert(self.input@ =~= old(self).input@ + write_txn_wire(ack));
        }
    }

    /// How many bits have been driven onto the wire.
    pub fn driven_len(&self) -> (r: usize)
        ensures
            r == self.driven@.len(),
    {
        self.driven.len()
    }

    /// One driven bit, for inspection by a test harness.
    pub fn driven_bit(&self, i: usize) -> (r: bool)
        requires
            i < self.driven@.len(),
        ensures
            r == self.driven@[i as int],
    {
        self.driven[i]
    }
}

impl SwdPins for SimPins {
    open spec fn in_bits(&self) -> Seq<bool> {
        stream_drop(self.input@, self.pos as int)
    }

    open spec fn out_bits(&self) -> Seq<bool> {
        self.driven@
    }

    open spec fn attached(&self) -> bool {
        self.attach
    }

    fn write_bit(&mut self, bit: bool) {
        self.driven.push(bit);
    }

    fn read_bit(&mut self) -> (b: bool) {
        if self.pos < self.input.len() {
            let b = self.input[self.pos];
            self.pos = self.pos + 1;
            proof {
                crate::bits::lemma_stream_drop_drop(self.input@, old(self).pos as int, 1);
            }
            b
        } else {
            false
        }
    }

    fn set_attach(&mut self, on: bool) {
        self.attach = on;
    }
}

/// A transaction-level link whose outcomes are scripted in advance.
/// `next` counts the transactions issued so far.
pub struct ScriptDriver {
    pub outcomes: Vec<TxnOutcome>,
    pub next: usize,
    pub log: Ghost<Seq<Txn>>,
}

impl ScriptDriver {
    pub fn new(outcomes: Vec<TxnOutcome>) -> (r: ScriptDriver)
        ensures
            r.outcomes == outcomes,
            r.next == 0,
            r.log@ == Seq::<Txn>::empty(),
    {
        ScriptDriver { outcomes, next: 0, log: Ghost(Seq::empty()) }
    }

    /// How many transactions have been issued: the counting stub's
    /// measure of what a batch really executed.
    pub fn txn_count(&self) -> (r: usize)
        ensures
            r == self.next,
    {
        self.next
    }

    fn take_outcome(&mut self) -> (o: Option<TxnOutcome>)
        ensures
            final(self).outcomes == old(self).outcomes,
            final(self).log == old(self).log,
            old(self).next < old(self).outcomes@.len() ==> o == Some(
                old(self).outcomes@[old(self).next as int],
            ) && final(self).next == old(self).next + 1,
            old(self).next >= old(self).outcomes@.len() ==> o is None && final(self).next == old(
                self,
            ).next,
    {
        if self.next < self.outcomes.len() {
            let o = self.outcomes[self.next];
            self.next = self.next + 1;
            Some(o)
        } else {
            None
        }
    }
}

/// The scripted idle pin-control form paired with [`ScriptDriver`].
pub struct SimDeps {
    pub driver: ScriptDriver,
    pub attach: bool,
    pub driven_bits: Ghost<Seq<bool>>,
}

impl SimDeps {
    pub fn new(driver: ScriptDriver) -> (r: SimDeps)
        ensures
            r.driver == driver,
            !r.attach,
            r.driven_bits@ == Seq::<bool>::empty(),
    {
        SimDeps { driver, attach: false, driven_bits: Ghost(Seq::empty()) }
    }
}

impl SwdDriver<SimDeps> for ScriptDriver {
    open spec fn txn_log(&self) -> Seq<Txn> {
        self.log@
    }

    /// The scripted link accepts any wire clock.
    open spec fn clock_accepts(&self, max_frequency: u32) -> bool {
        true
    }

    open spec fn future_outcomes(&self) -> Seq<TxnOutcome> {
        if self.next as int >= self.outcomes@.len() {
            Seq::empty()
        } else {
            self.outcomes@.subrange(self.next as int, self.outcomes@.len() as int)
        }
    }

    open spec fn spec_available() -> bool {
        true
    }

    fn available() -> (b: bool) {
        true
    }

    fn read_inner(&mut self, apndp: APnDP, a: DPRegister) -> (r: SwdResult<u32>) {
        let o = self.take_outcome();
        proof {
            self.log@ = self.log@.push(Txn::Read { port: apndp, addr: a });
            if old(self).future_outcomes().len() > 0 {
                assert(self.future_outcomes() =~= old(self).future_outcomes().drop_first());
            }
        }
        match o {
            Some(TxnOutcome::Done(w)) => Ok(w),
            Some(TxnOutcome::Wait) => Err(SwdError::AckWait),
            Some(TxnOutcome::Fault) => Err(SwdError::AckFault),
            Some(TxnOutcome::Protocol) => Err(SwdError::AckUnknown),
            Some(TxnOutcome::CorruptParity) => Err(SwdError::BadParity),
            None => Err(SwdError::AckUnknown),
        }
    }

    fn write_inner(&mut self, apndp: APnDP, a: DPRegister, data: u32) -> (r: SwdResult<()>) {
        let o = self.take_outcome();
        proof {
            self.log@ = self.log@.push(Txn::Write { port: apndp, addr: a, data });
            if old(self).future_outcomes().len() > 0 {
                assert(self.future_outcomes() =~= old(self).future_outcomes().drop_first());
            }
        }
        match o {
            Some(TxnOutcome::Done(_)) => Ok(()),
            Some(TxnOutcome::Wait) => Err(SwdError::AckWait),
            Some(TxnOutcome::Fault) => Err(SwdError::AckFault),
            Some(TxnOutcome::Protocol) => Err(SwdError::AckUnknown),
            Some(TxnOutcome::CorruptParity) => Err(SwdError::BadParity),
            None => Err(SwdError::AckUnknown),
        }
    }

    fn set_clock(&mut self, max_frequency: u32) -> (ok: bool) {
        true
    }

    fn into_deps(self) -> (r: SimDeps) {
        SimDeps { driver: self, attach: false, driven_bits: Ghost(Seq::empty()) }
    }
}

impl SwjDependencies<ScriptDriver> for SimDeps {
    open spec fn attached(&self) -> bool {
        self.attach
    }

    open spec fn holds(&self, swd: ScriptDriver) -> bool {
        swd == self.driver
    }

    open spec fn clock_accepts(&self, max_frequency: u32) -> bool {
        true
    }

    open spec fn driven(&self) -> Seq<bool> {
        self.driven_bits@
    }

    fn process_swj_pins(&mut self, output: Pins, mask: Pins, wait_us: u32) -> (r: Pins) {
        Pins(output.0 & mask.0)
    }

    fn process_swj_sequence(&mut self, data: &[u8], bits: usize) {
        self.attach = true;
        proof {
            self.driven_bits@ = self.driven_bits@ + crate::swj::swj_seq_bits(
                data@,
                bits as int,
            );
        }
    }

    fn process_swj_clock(&mut self, max_frequency: u32) -> (ok: bool) {
        true
    }

    fn high_impedance_mode(&mut self) {
        self.attach = false;
    }

    fn into_swd(self) -> (r: ScriptDriver) {
        self.driver
    }
}

/// A register-file model of a debug target.  Access Port reads are
/// posted: a read returns the previously posted value and posts the
/// addressed register; the Debug Port's read buffer drains the posted
/// value without issuing a new access.
pub struct TargetDriver {
    pub dp: [u32; 4],
    pub ap: [u32; 4],
    pub rdbuff: u32,
    pub log: Ghost<Seq<Txn>>,
}

/// The value a read transaction returns on the target model.
pub open spec fn spec_target_read_value(t: TargetDriver, port: APnDP, reg: DPRegister) -> u32 {
    match port {
        APnDP::AP => t.rdbuff,
        APnDP::DP => {
            if reg is RDBUFF {
                t.rdbuff
            } else {
                t.dp@[reg.spec_code()]
            }
        },
    }
}

/// The target model after a read transaction: an Access Port read
/// posts the addressed register into the read buffer.
pub open spec fn spec_target_read_post(t: TargetDriver, port: APnDP, reg: DPRegister) -> u32 {
    match port {
        APnDP::AP => t.ap@[reg.spec_code()],
        APnDP::DP => t.rdbuff,
    }
}

/// An Access Port read followed by a drain of the Debug Port's read
/// buffer yields exactly the value a non-posted read of that register
/// would: posting hides nothing.
pub proof fn lemma_posted_read_drains_exactly(t: TargetDriver, reg: DPRegister)
    ensures
        ({
            let posted = spec_target_read_post(t, APnDP::AP, reg);
            let t1 = TargetDriver { rdbuff: posted, ..t };
            spec_target_read_value(t1, APnDP::DP, DPRegister::RDBUFF) == t.ap@[reg.spec_code()]
        }),
{
}

/// Two consecutive Access Port reads: the second returns the value for
/// the first read's address.
pub proof fn lemma_chained_ap_reads(t: TargetDriver, r1: DPRegister, r2: DPRegister)
    ensures
        ({
            let posted = spec_target_read_post(t, APnDP::AP, r1);
            let t1 = TargetDriver { rdbuff: posted, ..t };
            spec_target_read_value(t1, APnDP::AP, r2) == t.ap@[r1.spec_code()]
        }),
{
}

/// Writing a Debug Port register and then immediately reading it back
/// goes to the register file both times: the read returns the value
/// just written, with no cache in between.  `t1` is the model after
/// the write, as [`TargetDriver::write_reg`] leaves it.
pub proof fn lemma_dp_write_read_independent(
    t0: TargetDriver,
    t1: TargetDriver,
    reg: DPRegister,
    w: u32,
)
    requires
        !(reg is RDBUFF),
        t0.dp@.len() == 4,
        t1.dp@ == t0.dp@.update(reg.spec_code(), w),
        t1.rdbuff == t0.rdbuff,
    ensures
        spec_target_read_value(t1, APnDP::DP, reg) == w,
{
}

impl TargetDriver {
    pub fn new(dp: [u32; 4], ap: [u32; 4]) -> (r: TargetDriver)
        ensures
            r.dp == dp,
            r.ap == ap,
            r.rdbuff == 0,
            r.log@ == Seq::<Txn>::empty(),
    {
        TargetDriver { dp, ap, rdbuff: 0, log: Ghost(Seq::empty()) }
    }

    /// One read transaction on the model, following the posted-read
    /// rules exactly.
    pub fn read_reg(&mut self, apndp: APnDP, a: DPRegister) -> (r: u32)
        ensures
            r == spec_target_read_value(*old(self), apndp, a),
            final(self).rdbuff == spec_target_read_post(*old(self), apndp, a),
            final(self).dp == old(self).dp,
            final(self).ap == old(self).ap,
            final(self).log == old(self).log,
    {
        match apndp {
            APnDP::AP => {
                let v = self.rdbuff;
                self.rdbuff = self.ap[a.code() as usize];
                v
            },
            APnDP::DP => {
                if let DPRegister::RDBUFF = a {
                    self.rdbuff
                } else {
                    self.dp[a.code() as usize]
                }
            },
        }
    }

    /// One write transaction on the model.
    pub fn write_reg(&mut self, apndp: APnDP, a: DPRegister, data: u32)
        ensures
            final(self).rdbuff == old(self).rdbuff,
            final(self).log == old(self).log,
            apndp is AP ==> final(self).ap@ == old(self).ap@.update(a.spec_code(), data)
                && final(self).dp == old(self).dp,
            apndp is DP ==> final(self).dp@ == old(self).dp@.update(a.spec_code(), data)
                && final(self).ap == old(self).ap,
    {
        match apndp {
            APnDP::AP => {
                self.ap[a.code() as usize] = data;
            },
            APnDP::DP => {
                self.dp[a.code() as usize] = data;
            },
        }
    }
}

/// The idle pin-control form paired with [`TargetDriver`].
pub struct TargetDeps {
    pub driver: TargetDriver,
    pub attach: bool,
    pub driven_bits: Ghost<Seq<bool>>,
}

impl TargetDeps {
    pub fn new(driver: TargetDriver) -> (r: TargetDeps)
        ensures
            r.driver == driver,
            !r.attach,
            r.driven_bits@ == Seq::<bool>::empty(),
    {
        TargetDeps { driver, attach: false, driven_bits: Ghost(Seq::empty()) }
    }
}

impl SwdDriver<TargetDeps> for TargetDriver {
    open spec fn txn_log(&self) -> Seq<Txn> {
        self.log@
    }

    /// The target model accepts any wire clock.
    open spec fn clock_accepts(&self, max_frequency: u32) -> bool {
        true
    }

    /// The model always acknowledges OK, but which value arrives
    /// depends on the posted state, so no outcomes are announced.
    open spec fn future_outcomes(&self) -> Seq<TxnOutcome> {
        Seq::empty()
    }

    open spec fn spec_available() -> bool {
        true
    }

    fn available() -> (b: bool) {
        true
    }

    fn read_inner(&mut self, apndp: APnDP, a: DPRegister) -> (r: SwdResult<u32>) {
        let v = self.read_reg(apndp, a);
        proof {
            self.log@ = self.log@.push(Txn::Read { port: apndp, addr: a });
        }
        Ok(v)
    }

    fn write_inner(&mut self, apndp: APnDP, a: DPRegister, data: u32) -> (r: SwdResult<()>) {
        self.write_reg(apndp, a, data);
        proof {
            self.log@ = self.log@.push(Txn::Write { port: apndp, addr: a, data });
        }
        Ok(())
    }

    fn set_clock(&mut self, max_frequency: u32) -> (ok: bool) {
        true
    }

    fn into_deps(self) -> (r: TargetDeps) {
        TargetDeps { driver: self, attach: false, driven_bits: Ghost(Seq::empty()) }
    }
}

impl SwjDependencies<TargetDriver> for TargetDeps {
    open spec fn attached(&self) -> bool {
        self.attach
    }

    open spec fn holds(&self, swd: TargetDriver) -> bool {
        swd == self.driver
    }

    open spec fn clock_accepts(&self, max_frequency: u32) -> bool {
        true
    }

    open spec fn driven(&self) -> Seq<bool> {
        self.driven_bits@
    }

    fn process_swj_pins(&mut self, output: Pins, mask: Pins, wait_us: u32) -> (r: Pins) {
        Pins(output.0 & mask.0)
    }

    fn process_swj_sequence(&mut self, data: &[u8], bits: usize) {
        self.attach = true;
        proof {
            self.driven_bits@ = self.driven_bits@ + crate::swj::swj_seq_bits(
                data@,
                bits as int,
            );
        }
    }

    fn process_swj_clock(&mut self, max_frequency: u32) -> (ok: bool) {
        true
    }

    fn high_impedance_mode(&mut self) {
        self.attach = false;
    }

    fn into_swd(self) -> (r: TargetDriver) {
        self.driver
    }
}

} // verus!
