//! The CMSIS-DAP command engine.
//!
//! [`Dap`] decodes one host command from a byte packet, forces the
//! connection state machine into the mode the command needs, drives the
//! SWD link through its driver, and encodes the response packet.  It is
//! generic over the pin-control capability (`DEPS`), the status sink
//! (`LEDS`) and the SWD driver (`SWD`), so that boards and simulators
//! plug in alike.

use vstd::prelude::*;

pub mod command;
pub mod request;
pub mod response;

use crate::driver::{
    read_of_outcome, retry_attempts, retry_result, swd_read, swd_write, write_of_outcome,
    SwdDriver, Txn, TxnOutcome,
};
use crate::state::{obs_to_last_mode, obs_to_none, obs_to_swd, DynState, State};
use crate::swd::{spec_reg_from_code, APnDP, DPRegister, RnW, SwdError, SwdResult};
use crate::swj::{Pins, SwjDependencies};
use command::{
    spec_command_id, spec_command_of, spec_host_status_of, spec_info_id_of, Command, ConnectPort, DapInfoID,
    DapLeds, DapVersion, HostStatus, CONNECT_RESPONSE_FAILED, CONNECT_RESPONSE_SWD, DAP_ERROR,
    DAP_OK,
};
use request::{byte_at, u16_at, u32_at, Request};
use response::{spec_push, spec_push_u32, ResponseWriter};

verus! {

/// Packet size for version 1 framing.
pub const DAP1_PACKET_SIZE: u16 = 64;

/// Packet size for version 2 framing.
pub const DAP2_PACKET_SIZE: u16 = 512;

/// The packet size each protocol version negotiates.
pub open spec fn spec_packet_size(version: DapVersion) -> int {
    match version {
        DapVersion::V1 => 64,
        DapVersion::V2 => 512,
    }
}

/// The response buffer as a handler first sees it: the echoed command
/// byte followed by zeroes up to the packet size.
pub open spec fn fresh_packet(id: u8, cap: int) -> Seq<u8> {
    Seq::new(
        cap as nat,
        |i: int|
            if i == 0 {
                id
            } else {
                0u8
            },
    )
}

/// The status byte a transfer response carries for an SWD outcome:
/// OK is 1, WAIT 2, FAULT 4, and any protocol-level error 0x0F.
pub open spec fn spec_swd_status<T>(r: SwdResult<T>) -> u8 {
    match r {
        Ok(_) => 1u8,
        Err(SwdError::AckWait) => 2u8,
        Err(SwdError::AckFault) => 4u8,
        Err(_) => 0x0Fu8,
    }
}


/// One scripted retry step: with a non-WAIT outcome at position `k`
/// and at least one attempt allowed, exactly that outcome is consumed.
proof fn lemma_scripted_step(outs: Seq<TxnOutcome>, k: int, wr: int)
    requires
        0 <= k,
        wr >= 1,
        outs.len() >= k + wr,
        !((outs[k]) is Wait),
    ensures
        outs.skip(k).len() == outs.len() - k,
        outs.skip(k)[0] == outs[k],
        retry_result(outs.skip(k), wr) == outs[k],
        retry_attempts(outs.skip(k), wr) == 1,
        outs.skip(k).skip(1) =~= outs.skip(k + 1),
{
    assert(outs.skip(k)[0] == outs[k]);
    assert(outs.skip(k).skip(1) =~= outs.skip(k + 1));
}

/// The default match mask compares whole words.
proof fn lemma_mask_all_ones(x: u32)
    ensures
        x & 0xFFFF_FFFFu32 == x,
{
    assert(x & 0xFFFF_FFFFu32 == x) by (bit_vector);
}

/// Record an SWD outcome's status byte at position `at` of the
/// response, handing the payload on; a transfer batch stops on `None`.
pub fn check<T>(r: SwdResult<T>, resp: &mut ResponseWriter, at: usize) -> (out: Option<T>)
    requires
        old(resp).wf(),
    ensures
        final(resp).wf(),
        final(resp).idx == old(resp).idx,
        final(resp).buf@ == if at < old(resp).buf@.len() {
            old(resp).buf@.update(at as int, spec_swd_status(r))
        } else {
            old(resp).buf@
        },
        out is Some <==> r is Ok,
        r matches Ok(v) ==> out == Some(v),
{
    match r {
        Ok(v) => {
            resp.write_u8_at(at, 1);
            Some(v)
        },
        Err(SwdError::AckWait) => {
            resp.write_u8_at(at, 2);
            None
        },
        Err(SwdError::AckFault) => {
            resp.write_u8_at(at, 4);
            None
        },
        Err(_) => {
            resp.write_u8_at(at, 0x0F);
            None
        },
    }
}

/// Does a transfer-request byte name a plain DP read (no value match,
/// no match-mask update)?
pub open spec fn is_plain_dp_read(b: int) -> bool {
    &&& b % 2 == 0
    &&& (b / 2) % 2 == 1
    &&& (b / 16) % 2 == 0
    &&& (b / 32) % 2 == 0
}

/// The status byte a batch records for an outcome.
pub open spec fn status_of_outcome(o: TxnOutcome) -> u8 {
    spec_swd_status(read_of_outcome(o))
}

/// The data word of an outcome (zero when it is not a completion).
pub open spec fn word_of_outcome(o: TxnOutcome) -> u32 {
    match o {
        TxnOutcome::Done(w) => w,
        _ => 0u32,
    }
}

/// Byte `j` of a word, little endian.
pub open spec fn le_byte(w: u32, j: int) -> u8 {
    if j == 0 {
        (w as int % 0x100) as u8
    } else if j == 1 {
        (w as int / 0x100 % 0x100) as u8
    } else if j == 2 {
        (w as int / 0x1_0000 % 0x100) as u8
    } else {
        (w as int / 0x100_0000 % 0x100) as u8
    }
}

/// Index of the first of the first `n` outcomes that is not a
/// completion, searching from `k`; `n` if all complete.
pub open spec fn first_fail_from(outs: Seq<TxnOutcome>, k: int, n: int) -> int
    decreases n - k,
{
    if k < 0 || k >= n {
        n
    } else if outs[k] is Done {
        first_fail_from(outs, k + 1, n)
    } else {
        k
    }
}

proof fn lemma_first_fail_all_done(outs: Seq<TxnOutcome>, k: int, n: int)
    requires
        0 <= k <= n,
        forall|j: int| k <= j < n ==> (#[trigger] outs[j]) is Done,
    ensures
        first_fail_from(outs, k, n) == n,
    decreases n - k,
{
    if k < n {
        lemma_first_fail_all_done(outs, k + 1, n);
    }
}

proof fn lemma_first_fail_at(outs: Seq<TxnOutcome>, k: int, j: int, n: int)
    requires
        0 <= k <= j < n,
        !((outs[j]) is Done),
        forall|i: int| k <= i < j ==> (#[trigger] outs[i]) is Done,
    ensures
        first_fail_from(outs, k, n) == j,
    decreases j - k,
{
    if k < j {
        lemma_first_fail_at(outs, k + 1, j, n);
    }
}

/// The conditions under which a transfer batch's response is pinned
/// exactly: the engine already in SWD mode with a driver announcing at
/// least `n + wait_retries` outcomes, none of them WAIT; a fresh
/// response buffer with room for `n` words; at least one retry
/// allowed; and every sub-transfer a plain DP read.
pub open spec fn plain_dp_read_setup(
    payload: Seq<u8>,
    i0: int,
    outs: Seq<TxnOutcome>,
    wait_retries: int,
    cap: int,
    resp_idx: int,
) -> bool {
    let n = byte_at(payload, i0 + 1);
    &&& resp_idx == 1
    &&& wait_retries >= 1
    &&& i0 >= 0
    &&& i0 + 2 + n <= payload.len()
    &&& 3 + 4 * n <= cap
    &&& outs.len() >= n + wait_retries
    &&& forall|k: int| 0 <= k < n ==> is_plain_dp_read(#[trigger] byte_at(payload, i0 + 2 + k))
    &&& forall|k: int| 0 <= k < n ==> !((#[trigger] outs[k]) is Wait)
}

/// The response buffer of a plain DP read batch of `n` sub-transfers:
/// byte 1 counts the sub-transfers executed, byte 2 is the last status,
/// then one little-endian word for every completed read; everything
/// else keeps the base buffer's bytes.
pub open spec fn spec_transfer_buf(base: Seq<u8>, outs: Seq<TxnOutcome>, n: int) -> Seq<u8> {
    let f = first_fail_from(outs, 0, n);
    let cnt = if f < n {
        f + 1
    } else {
        n
    };
    let status = if f < n {
        status_of_outcome(outs[f])
    } else if n > 0 {
        1u8
    } else {
        0u8
    };
    Seq::new(
        base.len(),
        |i: int|
            if i == 1 {
                cnt as u8
            } else if i == 2 {
                status
            } else if 3 <= i < 3 + 4 * f {
                le_byte(word_of_outcome(outs[(i - 3) / 4]), (i - 3) % 4)
            } else {
                base[i]
            },
    )
}

/// The response buffer after `k` completed sub-transfers of a plain DP
/// read batch, at the start of the next iteration.
spec fn spec_transfer_partial(base: Seq<u8>, outs: Seq<TxnOutcome>, k: int) -> Seq<u8> {
    Seq::new(
        base.len(),
        |i: int|
            if i == 1 {
                if k == 0 {
                    0u8
                } else {
                    k as u8
                }
            } else if i == 2 {
                if k == 0 {
                    0u8
                } else {
                    1u8
                }
            } else if 3 <= i < 3 + 4 * k {
                le_byte(word_of_outcome(outs[(i - 3) / 4]), (i - 3) % 4)
            } else {
                base[i]
            },
    )
}

/// Does a transfer-request byte name a plain DP write (no match-mask
/// update)?
pub open spec fn is_plain_dp_write(b: int) -> bool {
    &&& b % 2 == 0
    &&& (b / 2) % 2 == 0
    &&& (b / 32) % 2 == 0
}

/// The conditions under which a write batch's response is pinned
/// exactly; each sub-transfer occupies a request byte and a
/// little-endian data word in the payload.
pub open spec fn plain_dp_write_setup(
    payload: Seq<u8>,
    i0: int,
    outs: Seq<TxnOutcome>,
    wait_retries: int,
    cap: int,
    resp_idx: int,
) -> bool {
    let n = byte_at(payload, i0 + 1);
    &&& resp_idx == 1
    &&& wait_retries >= 1
    &&& i0 >= 0
    &&& i0 + 2 + 5 * n <= payload.len()
    &&& 3 <= cap
    &&& outs.len() >= n + wait_retries
    &&& forall|k: int| 0 <= k < n ==> is_plain_dp_write(#[trigger] byte_at(payload, i0 + 2 + 5 * k))
    &&& forall|k: int| 0 <= k < n ==> !((#[trigger] outs[k]) is Wait)
}

/// The response buffer of a plain DP write batch: only the count and
/// status bytes change; writes carry no response words.
pub open spec fn spec_transfer_write_buf(base: Seq<u8>, outs: Seq<TxnOutcome>, n: int) -> Seq<u8> {
    let f = first_fail_from(outs, 0, n);
    let cnt = if f < n {
        f + 1
    } else {
        n
    };
    let status = if f < n {
        status_of_outcome(outs[f])
    } else if n > 0 {
        1u8
    } else {
        0u8
    };
    Seq::new(
        base.len(),
        |i: int|
            if i == 1 {
                cnt as u8
            } else if i == 2 {
                status
            } else {
                base[i]
            },
    )
}

/// The write-batch response after `k` completed sub-transfers, at the
/// start of the next iteration.
spec fn spec_transfer_write_partial(base: Seq<u8>, k: int) -> Seq<u8> {
    Seq::new(
        base.len(),
        |i: int|
            if i == 1 {
                if k == 0 {
                    0u8
                } else {
                    k as u8
                }
            } else if i == 2 {
                if k == 0 {
                    0u8
                } else {
                    1u8
                }
            } else {
                base[i]
            },
    )
}

/// Does a transfer-request byte name a match-mask update (a write with
/// the mask bit set)?
pub open spec fn is_mask_write(b: int) -> bool {
    &&& (b / 2) % 2 == 0
    &&& (b / 32) % 2 == 1
}

/// The conditions under which a batch of mask-only writes is pinned.
pub open spec fn mask_only_setup(payload: Seq<u8>, i0: int, cap: int, resp_idx: int) -> bool {
    let n = byte_at(payload, i0 + 1);
    &&& resp_idx == 1
    &&& i0 >= 0
    &&& i0 + 2 + 5 * n <= payload.len()
    &&& 3 <= cap
    &&& forall|k: int| 0 <= k < n ==> is_mask_write(#[trigger] byte_at(payload, i0 + 2 + 5 * k))
}

/// The response of a mask-only batch: every sub-transfer counts as
/// completed, the status byte is never written, and no words follow.
pub open spec fn spec_transfer_mask_buf(base: Seq<u8>, n: int) -> Seq<u8> {
    Seq::new(
        base.len(),
        |i: int|
            if i == 1 {
                if n == 0 {
                    0u8
                } else {
                    n as u8
                }
            } else if i == 2 {
                0u8
            } else {
                base[i]
            },
    )
}

/// The response buffer of a same-register block of `n` plain DP reads:
/// bytes 1-2 count the transfers executed (little endian), byte 3 is
/// the final status, then one little-endian word for each completed
/// read.
pub open spec fn spec_block_buf(base: Seq<u8>, outs: Seq<TxnOutcome>, n: int) -> Seq<u8> {
    let f = first_fail_from(outs, 0, n);
    let cnt = if f < n {
        f + 1
    } else if n == 0 {
        1int
    } else {
        n
    };
    let status = if f < n {
        status_of_outcome(outs[f])
    } else if n > 0 {
        1u8
    } else {
        0u8
    };
    Seq::new(
        base.len(),
        |i: int|
            if i == 1 {
                (cnt % 0x100) as u8
            } else if i == 2 {
                (cnt / 0x100) as u8
            } else if i == 3 {
                status
            } else if 4 <= i < 4 + 4 * f {
                le_byte(word_of_outcome(outs[(i - 4) / 4]), (i - 4) % 4)
            } else {
                base[i]
            },
    )
}

/// The block response after `k` completed reads, at the start of the
/// next iteration (the count field still holds its reserved zeros).
spec fn spec_block_partial(base: Seq<u8>, outs: Seq<TxnOutcome>, k: int) -> Seq<u8> {
    Seq::new(
        base.len(),
        |i: int|
            if i == 1 || i == 2 {
                0u8
            } else if i == 3 {
                if k == 0 {
                    0u8
                } else {
                    1u8
                }
            } else if 4 <= i < 4 + 4 * k {
                le_byte(word_of_outcome(outs[(i - 4) / 4]), (i - 4) % 4)
            } else {
                base[i]
            },
    )
}

/// A transfer batch reports a transport-level failure precisely: when
/// the `kf`-th sub-transfer of a plain DP read batch is the first to
/// fail, the response counts `kf + 1` executed sub-transfers and
/// carries that failure's status byte.
pub proof fn lemma_transfer_failure_reporting(
    base: Seq<u8>,
    outs: Seq<TxnOutcome>,
    n: int,
    kf: int,
)
    requires
        0 <= kf < n <= 255,
        !((outs[kf]) is Done),
        forall|j: int| 0 <= j < kf ==> (#[trigger] outs[j]) is Done,
        base.len() >= 3 + 4 * n,
    ensures
        spec_transfer_buf(base, outs, n)[1] == (kf + 1) as u8,
        spec_transfer_buf(base, outs, n)[2] == status_of_outcome(outs[kf]),
{
    lemma_first_fail_at(outs, 0, kf, n);
}

/// The same failure reporting holds for a plain DP write batch.
pub proof fn lemma_transfer_write_failure_reporting(
    base: Seq<u8>,
    outs: Seq<TxnOutcome>,
    n: int,
    kf: int,
)
    requires
        0 <= kf < n <= 255,
        !((outs[kf]) is Done),
        forall|j: int| 0 <= j < kf ==> (#[trigger] outs[j]) is Done,
        base.len() >= 3,
    ensures
        spec_transfer_write_buf(base, outs, n)[1] == (kf + 1) as u8,
        spec_transfer_write_buf(base, outs, n)[2] == status_of_outcome(outs[kf]),
{
    lemma_first_fail_at(outs, 0, kf, n);
}

/// Does a transfer-request byte name a DP read with value match (and
/// no mask update)?
pub open spec fn is_vmatch_dp_read(b: int) -> bool {
    &&& b % 2 == 0
    &&& (b / 2) % 2 == 1
    &&& (b / 16) % 2 == 1
    &&& (b / 32) % 2 == 0
}

/// The conditions pinning an exhausted value match: one value-match DP
/// read whose announced completions never equal the target under the
/// default all-ones mask.
pub open spec fn vmatch_exhaust_setup(
    payload: Seq<u8>,
    i0: int,
    outs: Seq<TxnOutcome>,
    wait_retries: int,
    match_retries: int,
    cap: int,
    resp_idx: int,
) -> bool {
    let b = byte_at(payload, i0 + 2);
    let target = u32_at(payload, i0 + 3);
    &&& resp_idx == 1
    &&& wait_retries >= 1
    &&& i0 >= 0
    &&& byte_at(payload, i0 + 1) == 1
    &&& i0 + 7 <= payload.len()
    &&& 3 <= cap
    &&& outs.len() >= 1 + match_retries + wait_retries
    &&& is_vmatch_dp_read(b)
    &&& forall|k: int|
        0 <= k <= match_retries ==> (#[trigger] outs[k]) is Done && word_of_outcome(outs[k])
            != target as u32
}

/// The response while a value match is still being retried: one
/// sub-transfer counted, the last read's OK status recorded.
pub open spec fn spec_vmatch_running_buf(base: Seq<u8>) -> Seq<u8> {
    Seq::new(
        base.len(),
        |i: int|
            if i == 1 {
                1u8
            } else if i == 2 {
                1u8
            } else {
                base[i]
            },
    )
}

/// The response of an exhausted value match: the count byte carries
/// the mismatch flag (bit 4), the status byte the last read's OK, and
/// no data word follows.
pub open spec fn spec_vmatch_exhaust_buf(base: Seq<u8>) -> Seq<u8> {
    Seq::new(
        base.len(),
        |i: int|
            if i == 1 {
                0x11u8
            } else if i == 2 {
                1u8
            } else {
                base[i]
            },
    )
}

/// Does a transfer-request byte name a plain AP read?
pub open spec fn is_plain_ap_read(b: int) -> bool {
    &&& b % 2 == 1
    &&& (b / 2) % 2 == 1
    &&& (b / 16) % 2 == 0
    &&& (b / 32) % 2 == 0
}

/// The conditions pinning a single posted AP read: the posting access
/// and the drain through the read buffer both complete.
pub open spec fn ap_read_setup(
    payload: Seq<u8>,
    i0: int,
    outs: Seq<TxnOutcome>,
    wait_retries: int,
    cap: int,
    resp_idx: int,
) -> bool {
    let b = byte_at(payload, i0 + 2);
    &&& resp_idx == 1
    &&& wait_retries >= 1
    &&& i0 >= 0
    &&& byte_at(payload, i0 + 1) == 1
    &&& i0 + 3 <= payload.len()
    &&& 7 <= cap
    &&& outs.len() >= wait_retries + 1
    &&& outs.len() >= 2
    &&& is_plain_ap_read(b)
    &&& outs[0] is Done
    &&& outs[1] is Done
}

/// The response of a single completed AP read: one transfer counted,
/// OK status, and the word that arrived on the drain transaction.
pub open spec fn spec_ap_read_buf(base: Seq<u8>, w: u32) -> Seq<u8> {
    Seq::new(
        base.len(),
        |i: int|
            if i == 1 {
                1u8
            } else if i == 2 {
                1u8
            } else if 3 <= i < 7 {
                le_byte(w, i - 3)
            } else {
                base[i]
            },
    )
}

/// The conditions under which a same-register write block is pinned.
pub open spec fn plain_dp_write_block_setup(
    payload: Seq<u8>,
    i0: int,
    outs: Seq<TxnOutcome>,
    wait_retries: int,
    cap: int,
    resp_idx: int,
) -> bool {
    let n = u16_at(payload, i0 + 1);
    let b = byte_at(payload, i0 + 3);
    &&& resp_idx == 1
    &&& wait_retries >= 1
    &&& i0 >= 0
    &&& i0 + 4 + 4 * n <= payload.len()
    &&& 4 <= cap
    &&& outs.len() >= n + wait_retries
    &&& is_plain_dp_write(b)
    &&& forall|k: int| 0 <= k < n ==> !((#[trigger] outs[k]) is Wait)
}

/// The response of a write block: the count and status fields change,
/// nothing else.  An empty block still reports one attempted transfer,
/// as the count field is one past the last loop index.
pub open spec fn spec_block_write_buf(base: Seq<u8>, outs: Seq<TxnOutcome>, n: int) -> Seq<u8> {
    let f = first_fail_from(outs, 0, n);
    let cnt = if f < n {
        f + 1
    } else if n == 0 {
        1int
    } else {
        n
    };
    let status = if f < n {
        status_of_outcome(outs[f])
    } else if n > 0 {
        1u8
    } else {
        0u8
    };
    Seq::new(
        base.len(),
        |i: int|
            if i == 1 {
                (cnt % 0x100) as u8
            } else if i == 2 {
                (cnt / 0x100) as u8
            } else if i == 3 {
                status
            } else {
                base[i]
            },
    )
}

/// The write-block response after `k` completed transfers, at the
/// start of the next iteration.
spec fn spec_block_write_partial(base: Seq<u8>, k: int) -> Seq<u8> {
    Seq::new(
        base.len(),
        |i: int|
            if i == 1 || i == 2 {
                0u8
            } else if i == 3 {
                if k == 0 {
                    0u8
                } else {
                    1u8
                }
            } else {
                base[i]
            },
    )
}

/// The command engine.
pub struct Dap<DEPS, LEDS, SWD> {
    pub state: State<DEPS, SWD>,
    pub swd_wait_retries: usize,
    pub match_retries: usize,
    pub version_string: Vec<u8>,
    pub leds: LEDS,
}

impl<
    DEPS: SwjDependencies<SWD>,
    LEDS: DapLeds,
    SWD: SwdDriver<DEPS>,
> Dap<DEPS, LEDS, SWD> {
    /// The engine never holds a mid-transition state between commands.
    pub open spec fn wf(&self) -> bool {
        &&& self.state.wf()
        &&& SWD::spec_available()
    }

    /// Create an engine: port idle, five wait retries, eight match
    /// retries, as the protocol defaults prescribe.
    pub fn new(dependencies: DEPS, leds: LEDS, version_string: Vec<u8>) -> (r: Dap<
        DEPS,
        LEDS,
        SWD,
    >)
        requires
            SWD::spec_available(),
            version_string@.len() <= 255,
        ensures
            r.wf(),
            r.state == (State::<DEPS, SWD>::Idle {
                mode_to_restore: DynState::Idle,
                deps: dependencies,
            }),
            r.swd_wait_retries == 5,
            r.match_retries == 8,
            r.version_string == version_string,
            r.leds == leds,
    {
        Dap {
            state: State::new(dependencies),
            swd_wait_retries: 5,
            match_retries: 8,
            version_string,
            leds,
        }
    }

    /// The status sink, for callers that need to inspect it.
    pub fn leds(&self) -> (r: &LEDS)
        ensures
            r == &self.leds,
    {
        &self.leds
    }

    /// Park the port and drive it to high impedance.
    pub fn suspend(&mut self)
        requires
            old(self).wf(),
        ensures
            final(self).wf(),
            final(self).state.obs() == obs_to_none(old(self).state.obs()),
            final(self).state matches State::Idle { deps, .. } && !deps.attached(),
            final(self).swd_wait_retries == old(self).swd_wait_retries,
            final(self).match_retries == old(self).match_retries,
            final(self).leds == old(self).leds,
    {
        self.state.to_none();
        match &mut self.state {
            State::Idle { deps, .. } => {
                deps.high_impedance_mode();
            },
            _ => {
                proof {
                    assert(false);
                }
            },
        }
    }

    fn process_info(&mut self, req: &mut Request, resp: &mut ResponseWriter, version: DapVersion)
        requires
            old(self).wf(),
            old(req).wf(),
            old(resp).wf(),
        ensures
            final(self).wf(),
            final(resp).wf(),
            *final(self) == *old(self),
            final(resp).buf@.len() == old(resp).buf@.len(),
            forall|j: int|
                0 <= j < old(resp).idx ==> final(resp).buf@[j] == old(resp).buf@[j],
            final(resp).idx >= old(resp).idx,
            ({
                let buf0 = old(resp).buf@;
                let idx0 = old(resp).idx as int;
                let id = spec_info_id_of(byte_at(old(req).data@, old(req).idx as int) as u8);
                let m = (final(resp).buf@, final(resp).idx as int);
                if id == Some(DapInfoID::Capabilities) {
                    let s0 = spec_push(buf0, idx0, 1);
                    m == spec_push(s0.0, s0.1, if SWD::spec_available() {
                        1u8
                    } else {
                        0u8
                    })
                } else if id == Some(DapInfoID::SWOTraceBufferSize) {
                    let s0 = spec_push(buf0, idx0, 4);
                    m == spec_push_u32(s0.0, s0.1, 0)
                } else if id == Some(DapInfoID::MaxPacketCount) {
                    let s0 = spec_push(buf0, idx0, 1);
                    m == spec_push(s0.0, s0.1, 1)
                } else if id == Some(DapInfoID::MaxPacketSize) {
                    let s0 = spec_push(buf0, idx0, 2);
                    let size = spec_packet_size(version);
                    let s1 = spec_push(s0.0, s0.1, (size % 0x100) as u8);
                    m == spec_push(s1.0, s1.1, (size / 0x100) as u8)
                } else if id == Some(DapInfoID::FirmwareVersion) {
                    old(resp).idx + 1 + old(self).version_string@.len() <= buf0.len() ==> {
                        &&& final(resp).idx == idx0 + 1 + old(self).version_string@.len()
                        &&& final(resp).buf@ == buf0.subrange(0, idx0).push(
                            old(self).version_string@.len() as u8,
                        ) + old(self).version_string@ + buf0.skip(
                            idx0 + 1 + old(self).version_string@.len() as int,
                        )
                    }
                } else {
                    m == spec_push(buf0, idx0, 0)
                }
            }),
    {
        let id_byte = req.next_u8();
        match DapInfoID::try_from_u8(id_byte) {
            // Zero-length strings: the host reads identifiers from the
            // transport instead.
            Some(DapInfoID::VendorID) => resp.write_u8(0),
            Some(DapInfoID::ProductID) => resp.write_u8(0),
            Some(DapInfoID::SerialNumber) => resp.write_u8(0),
            Some(DapInfoID::FirmwareVersion) => {
                let ghost buf0 = old(resp).buf@;
                let ghost idx0 = old(resp).idx as int;
                let n = self.version_string.len();
                resp.write_u8(n as u8);
                let ghost mid = resp.buf@;
                resp.write_slice(self.version_string.as_slice());
                proof {
                    if idx0 + 1 + self.version_string@.len() <= buf0.len() {
                        assert(resp.buf@ =~= buf0.subrange(0, idx0).push(
                            self.version_string@.len() as u8,
                        ) + self.version_string@ + buf0.skip(
                            idx0 + 1 + self.version_string@.len() as int,
                        ));
                    }
                }
            },
            // Unknown target device.
            Some(DapInfoID::TargetVendor) => resp.write_u8(0),
            Some(DapInfoID::TargetName) => resp.write_u8(0),
            Some(DapInfoID::Capabilities) => {
                resp.write_u8(1);
                // Bit 0: SWD support; JTAG, SWO and the atomic
                // commands are not offered.
                let swd = if SWD::available() {
                    1u8
                } else {
                    0u8
                };
                resp.write_u8(swd);
            },
            Some(DapInfoID::SWOTraceBufferSize) => {
                resp.write_u8(4);
                resp.write_u32(0);
            },
            Some(DapInfoID::MaxPacketCount) => {
                resp.write_u8(1);
                // One packet at a time.
                resp.write_u8(1);
            },
            Some(DapInfoID::MaxPacketSize) => {
                resp.write_u8(2);
                match version {
                    DapVersion::V1 => resp.write_u16(DAP1_PACKET_SIZE),
                    DapVersion::V2 => resp.write_u16(DAP2_PACKET_SIZE),
                }
            },
            None => resp.write_u8(0),
        }
    }

    fn process_host_status(&mut self, req: &mut Request, resp: &mut ResponseWriter)
        requires
            old(self).wf(),
            old(req).wf(),
            old(resp).wf(),
        ensures
            final(self).wf(),
            final(resp).wf(),
            final(self).state == old(self).state,
            final(self).swd_wait_retries == old(self).swd_wait_retries,
            final(self).match_retries == old(self).match_retries,
            final(self).version_string == old(self).version_string,
            ({
                let t = byte_at(old(req).data@, old(req).idx as int) as u8;
                let asserted = byte_at(old(req).data@, old(req).idx as int + 1) != 0;
                match spec_host_status_of(t, asserted) {
                    Some(status) => final(self).leds.statuses() == old(self).leds.statuses().push(
                        status,
                    ),
                    None => final(self).leds == old(self).leds,
                }
            }),
            (final(resp).buf@, final(resp).idx as int) == spec_push(
                old(resp).buf@,
                old(resp).idx as int,
                DAP_OK,
            ),
    {
        let status_type = req.next_u8();
        let status_status = req.next_u8();
        if status_type == 0 {
            self.leds.react_to_host_status(HostStatus::Connected(status_status != 0));
        } else if status_type == 1 {
            self.leds.react_to_host_status(HostStatus::Running(status_status != 0));
        }
        resp.write_u8(DAP_OK);
    }

    fn process_connect(&mut self, req: &mut Request, resp: &mut ResponseWriter)
        requires
            old(self).wf(),
            old(req).wf(),
            old(resp).wf(),
        ensures
            final(self).wf(),
            final(resp).wf(),
            final(self).swd_wait_retries == old(self).swd_wait_retries,
            final(self).match_retries == old(self).match_retries,
            final(self).leds == old(self).leds,
            ({
                let b = byte_at(old(req).data@, old(req).idx as int);
                let success = SWD::spec_available() && (b == 0 || b == 1);
                if success {
                    &&& final(self).state.obs() == obs_to_swd(old(self).state.obs())
                    &&& (final(resp).buf@, final(resp).idx as int) == spec_push(
                        old(resp).buf@,
                        old(resp).idx as int,
                        CONNECT_RESPONSE_SWD,
                    )
                } else {
                    &&& final(self).state == old(self).state
                    &&& (final(resp).buf@, final(resp).idx as int) == spec_push(
                        old(resp).buf@,
                        old(resp).idx as int,
                        CONNECT_RESPONSE_FAILED,
                    )
                }
            }),
    {
        let port_byte = req.next_u8();
        let port = match ConnectPort::try_from_u8(port_byte) {
            Some(port) => port,
            None => {
                resp.write_u8(CONNECT_RESPONSE_FAILED);
                return ;
            },
        };
        let available = SWD::available();
        match (available, port) {
            (true, ConnectPort::Default) | (true, ConnectPort::SWD) => {
                self.state.to_swd();
                resp.write_u8(CONNECT_RESPONSE_SWD);
            },
            _ => {
                resp.write_u8(CONNECT_RESPONSE_FAILED);
            },
        }
    }

    fn process_disconnect(&mut self, resp: &mut ResponseWriter)
        requires
            old(self).wf(),
            old(resp).wf(),
        ensures
            final(self).wf(),
            final(resp).wf(),
            final(self).state.obs() == obs_to_none(old(self).state.obs()),
            final(self).state matches State::Idle { deps, .. } && !deps.attached(),
            final(self).swd_wait_retries == old(self).swd_wait_retries,
            final(self).match_retries == old(self).match_retries,
            final(self).leds == old(self).leds,
            (final(resp).buf@, final(resp).idx as int) == spec_push(
                old(resp).buf@,
                old(resp).idx as int,
                DAP_OK,
            ),
    {
        self.state.to_none();
        match &mut self.state {
            State::Idle { deps, .. } => {
                deps.high_impedance_mode();
            },
            _ => {
                proof {
                    assert(false);
                }
            },
        }
        resp.write_u8(DAP_OK);
    }

    fn process_write_abort(&mut self, req: &mut Request, resp: &mut ResponseWriter)
        requires
            old(self).wf(),
            old(req).wf(),
            old(resp).wf(),
        ensures
            final(self).wf(),
            final(resp).wf(),
            final(self).state.obs() == obs_to_last_mode(old(self).state.obs()),
            final(resp).buf@.len() == old(resp).buf@.len(),
            ({
                let m = (final(resp).buf@, final(resp).idx as int);
                let ok = spec_push(old(resp).buf@, old(resp).idx as int, DAP_OK);
                let err = spec_push(old(resp).buf@, old(resp).idx as int, DAP_ERROR);
                &&& obs_to_last_mode(old(self).state.obs()) is Idle ==> m == err
                &&& obs_to_last_mode(old(self).state.obs()) is Swd ==> (m == ok || m == err)
            }),
            // In SWD mode the only transactions issued are retried
            // writes of the payload word to the abort register.
            (*old(self)).state matches State::Swd(swd) ==> ((*final(self)).state matches State::Swd(
                swd2,
            ) && swd.txn_log().len() <= swd2.txn_log().len() <= swd.txn_log().len() + old(
                self,
            ).swd_wait_retries && swd2.txn_log().subrange(0, swd.txn_log().len() as int)
                == swd.txn_log() && (forall|i: int|
                swd.txn_log().len() <= i < swd2.txn_log().len() ==> #[trigger] swd2.txn_log()[i]
                    == (Txn::Write {
                    port: APnDP::DP,
                    addr: DPRegister::DPIDR,
                    data: (u32_at(old(req).data@, old(req).idx as int) as u32),
                }))),
            // With a driver that announces its outcomes, the reply is
            // pinned: success exactly when the retried write succeeds.
            (*old(self)).state matches State::Swd(swd) ==> (swd.future_outcomes().len() >= old(
                self,
            ).swd_wait_retries ==> {
                let out = retry_result(swd.future_outcomes(), old(self).swd_wait_retries as int);
                (final(resp).buf@, final(resp).idx as int) == spec_push(
                    old(resp).buf@,
                    old(resp).idx as int,
                    if write_of_outcome(out) is Ok {
                        DAP_OK
                    } else {
                        DAP_ERROR
                    },
                )
            }),
    {
        self.state.to_last_mode();
        let word = req.next_u32();
        let available = SWD::available();
        if available {
            match &mut self.state {
                State::Swd(swd) => {
                    match swd_write(
                        swd,
                        self.swd_wait_retries,
                        APnDP::DP,
                        DPRegister::DPIDR,
                        word,
                    ) {
                        Ok(_) => resp.write_u8(DAP_OK),
                        Err(_) => resp.write_u8(DAP_ERROR),
                    }
                },
                _ => {
                    resp.write_u8(DAP_ERROR);
                },
            }
        } else {
            resp.write_u8(DAP_ERROR);
        }
    }

    fn process_reset_target(&mut self, resp: &mut ResponseWriter)
        requires
            old(self).wf(),
            old(resp).wf(),
        ensures
            final(self).wf(),
            final(resp).wf(),
            *final(self) == *old(self),
            ({
                let s0 = spec_push(old(resp).buf@, old(resp).idx as int, DAP_OK);
                (final(resp).buf@, final(resp).idx as int) == spec_push(s0.0, s0.1, 0)
            }),
    {
        resp.write_u8(DAP_OK);
        // No device-specific reset sequence is implemented.
        resp.write_u8(0);
    }

    fn process_swj_pins(&mut self, req: &mut Request, resp: &mut ResponseWriter)
        requires
            old(self).wf(),
            old(req).wf(),
            old(resp).wf(),
        ensures
            final(self).wf(),
            final(resp).wf(),
            final(self).state.obs() == obs_to_none(old(self).state.obs()),
            final(self).swd_wait_retries == old(self).swd_wait_retries,
            final(self).match_retries == old(self).match_retries,
            final(self).leds == old(self).leds,
            final(resp).buf@.len() == old(resp).buf@.len(),
            exists|b: u8|
                (final(resp).buf@, final(resp).idx as int) == spec_push(
                    old(resp).buf@,
                    old(resp).idx as int,
                    b,
                ),
    {
        let output_byte = req.next_u8();
        let mask_byte = req.next_u8();
        let wait = req.next_u32();
        let wait_us = if wait < 3_000_000 {
            wait
        } else {
            // The protocol caps the settle wait at three seconds.
            3_000_000
        };
        let output = Pins::from_bits_truncate(output_byte);
        let mask = Pins::from_bits_truncate(mask_byte);
        self.state.to_none();
        match &mut self.state {
            State::Idle { deps, .. } => {
                let pins = deps.process_swj_pins(output, mask, wait_us);
                let b = pins.bits();
                resp.write_u8(b);
                proof {
                    assert((final(resp).buf@, final(resp).idx as int) == spec_push(
                        old(resp).buf@,
                        old(resp).idx as int,
                        b,
                    ));
                }
            },
            _ => {
                proof {
                    assert(false);
                }
            },
        }
    }

    fn process_swj_clock(&mut self, req: &mut Request, resp: &mut ResponseWriter)
        requires
            old(self).wf(),
            old(req).wf(),
            old(resp).wf(),
        ensures
            final(self).wf(),
            final(resp).wf(),
            final(self).state.obs() == old(self).state.obs(),
            final(self).swd_wait_retries == old(self).swd_wait_retries,
            final(self).match_retries == old(self).match_retries,
            final(self).leds == old(self).leds,
            // The reply reports exactly whether the active form of the
            // port accepts the requested rate.
            (final(resp).buf@, final(resp).idx as int) == spec_push(
                old(resp).buf@,
                old(resp).idx as int,
                if old(self).state.spec_clock_accepts(
                    u32_at(old(req).data@, old(req).idx as int) as u32,
                ) {
                    DAP_OK
                } else {
                    DAP_ERROR
                },
            ),
    {
        let max_frequency = req.next_u32();
        let valid = self.state.set_clock(max_frequency);
        if valid {
            resp.write_u8(DAP_OK);
        } else {
            resp.write_u8(DAP_ERROR);
        }
    }

    fn process_swj_sequence(&mut self, req: &mut Request, resp: &mut ResponseWriter)
        requires
            old(self).wf(),
            old(req).wf(),
            old(resp).wf(),
        ensures
            final(self).wf(),
            final(resp).wf(),
            final(self).swd_wait_retries == old(self).swd_wait_retries,
            final(self).match_retries == old(self).match_retries,
            final(self).leds == old(self).leds,
            ({
                let n0 = byte_at(old(req).data@, old(req).idx as int);
                let nbits = if n0 == 0 {
                    256int
                } else {
                    n0
                };
                let nbytes = (nbits + 7) / 8;
                if nbytes <= old(req).data@.len() - (old(req).idx + 1) {
                    &&& final(self).state.obs() == obs_to_none(old(self).state.obs())
                    &&& (final(resp).buf@, final(resp).idx as int) == spec_push(
                        old(resp).buf@,
                        old(resp).idx as int,
                        DAP_OK,
                    )
                    &&& ((*old(self)).state matches State::Idle { deps: d0, .. }
                        ==> ((*final(self)).state matches State::Idle { deps: d1, .. }
                        && d1.driven() == d0.driven()
                        + crate::swj::swj_seq_bits(
                        old(req).data@.subrange(
                            old(req).idx + 1,
                            old(req).idx + 1 + nbytes,
                        ),
                        nbits,
                    )))
                } else {
                    &&& final(self).state == old(self).state
                    &&& (final(resp).buf@, final(resp).idx as int) == spec_push(
                        old(resp).buf@,
                        old(resp).idx as int,
                        DAP_ERROR,
                    )
                }
            }),
    {
        let n0 = req.next_u8();
        let nbits: usize = if n0 == 0 {
            // Zero encodes the maximum of 256 bits.
            256
        } else {
            n0 as usize
        };
        let nbytes = (nbits + 7) / 8;
        if nbytes > req.rest_len() {
            resp.write_u8(DAP_ERROR);
            return ;
        }
        self.state.to_none();
        match &mut self.state {
            State::Idle { deps, .. } => {
                let start = req.idx;
                let dlen = req.data.len();
                assert(start + nbytes <= dlen);
                let seq = vstd::slice::slice_subrange(req.data.as_slice(), start, start + nbytes);
                deps.process_swj_sequence(seq, nbits);
            },
            _ => {
                proof {
                    assert(false);
                }
            },
        }
        resp.write_u8(DAP_OK);
    }

    fn process_swd_configure(&mut self, req: &mut Request, resp: &mut ResponseWriter)
        requires
            old(self).wf(),
            old(req).wf(),
            old(resp).wf(),
        ensures
            final(self).wf(),
            final(resp).wf(),
            *final(self) == *old(self),
            ({
                let config = byte_at(old(req).data@, old(req).idx as int);
                // Only the default configuration (one-period clock,
                // no always-data) is supported.
                let accepted = config % 8 == 0;
                (final(resp).buf@, final(resp).idx as int) == spec_push(
                    old(resp).buf@,
                    old(resp).idx as int,
                    if accepted {
                        DAP_OK
                    } else {
                        DAP_ERROR
                    },
                )
            }),
    {
        let config = req.next_u8();
        let clk_period = config % 4;
        let always_data = (config / 4) % 2 != 0;
        if clk_period == 0 && !always_data {
            resp.write_u8(DAP_OK);
        } else {
            resp.write_u8(DAP_ERROR);
        }
    }

    fn process_transfer_configure(&mut self, req: &mut Request, resp: &mut ResponseWriter)
        requires
            old(self).wf(),
            old(req).wf(),
            old(resp).wf(),
        ensures
            final(self).wf(),
            final(resp).wf(),
            final(self).state == old(self).state,
            final(self).leds == old(self).leds,
            final(self).version_string == old(self).version_string,
            // Idle cycles are accepted but not honoured; wait and
            // match retries take effect for subsequent transfers.
            final(self).swd_wait_retries == u16_at(old(req).data@, old(req).idx as int + 1),
            final(self).match_retries == u16_at(old(req).data@, old(req).idx as int + 3),
            (final(resp).buf@, final(resp).idx as int) == spec_push(
                old(resp).buf@,
                old(resp).idx as int,
                DAP_OK,
            ),
    {
        let _idle_cycles = req.next_u8();
        self.swd_wait_retries = req.next_u16() as usize;
        self.match_retries = req.next_u16() as usize;
        resp.write_u8(DAP_OK);
    }


    /// Run a batch of individually described register transfers.  The
    /// response reserves bytes 1 and 2 for the executed count and the
    /// final status, patched while processing; the batch stops at the
    /// first transport failure or exhausted value match.  For a batch
    /// of plain DP reads on an announced driver the whole response and
    /// transaction log are pinned exactly.
    #[verifier::loop_isolation(false)]
    #[verifier::rlimit(100)]
    #[verifier::spinoff_prover]
    fn process_transfer(&mut self, req: &mut Request, resp: &mut ResponseWriter)
        requires
            old(self).wf(),
            old(req).wf(),
            old(resp).wf(),
        ensures
            final(self).wf(),
            final(req).wf(),
            final(resp).wf(),
            final(resp).buf@.len() == old(resp).buf@.len(),
            old(resp).idx >= 1 && old(resp).buf@.len() > 0 ==> final(resp).buf@[0] == old(
                resp,
            ).buf@[0],
            final(resp).idx >= old(resp).idx,
            final(self).state.obs() == obs_to_last_mode(old(self).state.obs()),
            final(self).swd_wait_retries == old(self).swd_wait_retries,
            final(self).match_retries == old(self).match_retries,
            final(self).leds == old(self).leds,
            final(self).version_string == old(self).version_string,
            (*old(self)).state matches State::Swd(swd) ==> (plain_dp_read_setup(
                old(req).data@,
                old(req).idx as int,
                swd.future_outcomes(),
                old(self).swd_wait_retries as int,
                old(resp).buf@.len() as int,
                old(resp).idx as int,
            ) ==> {
                let payload = old(req).data@;
                let i0 = old(req).idx as int;
                let outs = swd.future_outcomes();
                let n = byte_at(payload, i0 + 1);
                let f = first_fail_from(outs, 0, n);
                let executed = if f < n {
                    f + 1
                } else {
                    n
                };
                &&& final(resp).buf@ == spec_transfer_buf(old(resp).buf@, outs, n)
                &&& final(resp).idx == 3 + 4 * (if f < n {
                    f
                } else {
                    n
                })
                &&& final(self).state matches State::Swd(swd2) && swd2.txn_log().len() == swd.txn_log().len()
                    + executed && (forall|k: int|
                    0 <= k < executed ==> #[trigger] swd2.txn_log()[swd.txn_log().len() + k]
                        == (Txn::Read {
                        port: APnDP::DP,
                        addr: spec_reg_from_code(byte_at(payload, i0 + 2 + k) / 4 % 4),
                    }))
            }),
            // An AP read is posted and then drained through the read
            // buffer: exactly those two transactions are issued, and
            // the reported word is the drained one.
            (*old(self)).state matches State::Swd(swd) ==> (ap_read_setup(
                old(req).data@,
                old(req).idx as int,
                swd.future_outcomes(),
                old(self).swd_wait_retries as int,
                old(resp).buf@.len() as int,
                old(resp).idx as int,
            ) ==> {
                let payload = old(req).data@;
                let i0 = old(req).idx as int;
                let outs = swd.future_outcomes();
                &&& final(resp).buf@ == spec_ap_read_buf(
                    old(resp).buf@,
                    word_of_outcome(outs[1]),
                )
                &&& final(resp).idx == 7
                &&& (*final(self)).state matches State::Swd(swd2) && swd2.txn_log()
                    == swd.txn_log().push(
                    Txn::Read { port: APnDP::AP, addr: spec_reg_from_code(byte_at(payload, i0 + 2) / 4 % 4) },
                ).push(Txn::Read { port: APnDP::DP, addr: DPRegister::RDBUFF })
            }),
            // An exhausted value match issues the initial read plus
            // `match_retries` re-reads, flags the mismatch on the count
            // byte, and ends the batch.
            (*old(self)).state matches State::Swd(swd) ==> (vmatch_exhaust_setup(
                old(req).data@,
                old(req).idx as int,
                swd.future_outcomes(),
                old(self).swd_wait_retries as int,
                old(self).match_retries as int,
                old(resp).buf@.len() as int,
                old(resp).idx as int,
            ) ==> {
                let payload = old(req).data@;
                let i0 = old(req).idx as int;
                &&& final(resp).buf@ == spec_vmatch_exhaust_buf(old(resp).buf@)
                &&& final(resp).idx == 3
                &&& (*final(self)).state matches State::Swd(swd2) && swd2.txn_log().len()
                    == swd.txn_log().len() + old(self).match_retries + 1 && (forall|k: int|
                    0 <= k < old(self).match_retries + 1 ==> #[trigger] swd2.txn_log()[swd.txn_log().len()
                        + k] == (Txn::Read {
                        port: APnDP::DP,
                        addr: spec_reg_from_code(byte_at(payload, i0 + 2) / 4 % 4),
                    }))
            }),
            // Mask-only writes update the match mask and count as
            // completed, but issue no transaction: the link comes back
            // untouched.
            (*old(self)).state matches State::Swd(swd) ==> (mask_only_setup(
                old(req).data@,
                old(req).idx as int,
                old(resp).buf@.len() as int,
                old(resp).idx as int,
            ) ==> {
                let payload = old(req).data@;
                let i0 = old(req).idx as int;
                let n = byte_at(payload, i0 + 1);
                &&& final(resp).buf@ == spec_transfer_mask_buf(old(resp).buf@, n)
                &&& final(resp).idx == 3
                &&& (*final(self)).state matches State::Swd(swd2) && swd2 == swd
            }),
            (*old(self)).state matches State::Swd(swd) ==> (plain_dp_write_setup(
                old(req).data@,
                old(req).idx as int,
                swd.future_outcomes(),
                old(self).swd_wait_retries as int,
                old(resp).buf@.len() as int,
                old(resp).idx as int,
            ) ==> {
                let payload = old(req).data@;
                let i0 = old(req).idx as int;
                let outs = swd.future_outcomes();
                let n = byte_at(payload, i0 + 1);
                let f = first_fail_from(outs, 0, n);
                let executed = if f < n {
                    f + 1
                } else {
                    n
                };
                &&& final(resp).buf@ == spec_transfer_write_buf(old(resp).buf@, outs, n)
                &&& final(resp).idx == 3
                &&& final(self).state matches State::Swd(swd2) && swd2.txn_log().len() == swd.txn_log().len()
                    + executed && (forall|k: int|
                    0 <= k < executed ==> #[trigger] swd2.txn_log()[swd.txn_log().len() + k]
                        == (Txn::Write {
                        port: APnDP::DP,
                        addr: spec_reg_from_code(byte_at(payload, i0 + 2 + 5 * k) / 4 % 4),
                        data: (u32_at(payload, i0 + 3 + 5 * k) as u32),
                    }))
            }),
    {
        self.state.to_last_mode();
        let _dap_index = req.next_u8();
        let ntransfers = req.next_u8();
        let mut match_mask: u32 = 0xFFFF_FFFF;
        let wait_retries = self.swd_wait_retries;
        let mretries = self.match_retries;
        let ghost payload = old(req).data@;
        let ghost i0 = old(req).idx as int;
        let ghost base = old(resp).buf@;
        match &mut self.state {
            State::Swd(swd) => {
                let ghost outs = swd.future_outcomes();
                let ghost log0 = swd.txn_log();
                let ghost cnd = (*old(self)).state matches State::Swd(s0) && outs
                    == s0.future_outcomes() && plain_dp_read_setup(
                    payload,
                    i0,
                    outs,
                    wait_retries as int,
                    base.len() as int,
                    old(resp).idx as int,
                );
                let ghost cndw = (*old(self)).state matches State::Swd(s0) && outs
                    == s0.future_outcomes() && plain_dp_write_setup(
                    payload,
                    i0,
                    outs,
                    wait_retries as int,
                    base.len() as int,
                    old(resp).idx as int,
                );
                let ghost swd0 = *swd;
                let ghost cndm = mask_only_setup(payload, i0, base.len() as int, old(resp).idx as int);
                let ghost cnda = (*old(self)).state matches State::Swd(s0) && outs
                    == s0.future_outcomes() && ap_read_setup(
                    payload,
                    i0,
                    outs,
                    wait_retries as int,
                    base.len() as int,
                    old(resp).idx as int,
                );
                let ghost cndv = (*old(self)).state matches State::Swd(s0) && outs
                    == s0.future_outcomes() && vmatch_exhaust_setup(
                    payload,
                    i0,
                    outs,
                    wait_retries as int,
                    mretries as int,
                    base.len() as int,
                    old(resp).idx as int,
                );
                let ghost n = byte_at(payload, i0 + 1);
                // Reserve count and status bytes; they are patched as
                // the batch advances.
                resp.write_u16(0);
                proof {
                    if cnd {
                        assert(ntransfers as int == n);
                        assert(resp.buf@ =~= spec_transfer_partial(base, outs, 0));
                    }
                    if cndw {
                        assert(ntransfers as int == n);
                        assert(resp.buf@ =~= spec_transfer_write_partial(base, 0));
                    }
                    if cndm {
                        assert(ntransfers as int == n);
                        assert(resp.buf@ =~= spec_transfer_mask_buf(base, 0));
                    }
                    if cndv {
                        assert(ntransfers == 1);
                        assert(resp.buf@ =~= spec_transfer_mask_buf(base, 0));
                    }
                    if cnda {
                        assert(ntransfers == 1);
                        assert(resp.buf@ =~= spec_transfer_mask_buf(base, 0));
                    }
                }
                let mut transfer_idx: u8 = 0;
                let mut aborted = false;
                while transfer_idx < ntransfers && !aborted
                    invariant
                        req.wf(),
                        resp.wf(),
                        resp.buf@.len() == base.len(),
                        resp.idx >= old(resp).idx,
                        old(resp).idx >= 1 && base.len() > 0 ==> resp.buf@[0] == base[0],
                        req.data == old(req).data,
                        req.command == old(req).command,
                        transfer_idx <= ntransfers,
                        cnd ==> !aborted ==> {
                            &&& transfer_idx as int <= n
                            &&& req.idx as int == i0 + 2 + transfer_idx as int
                            &&& swd.future_outcomes() == outs.skip(transfer_idx as int)
                            &&& swd.txn_log().len() == log0.len() + transfer_idx as int
                            &&& forall|k: int|
                                0 <= k < transfer_idx as int ==> #[trigger] swd.txn_log()[log0.len()
                                    + k] == (Txn::Read {
                                    port: APnDP::DP,
                                    addr: spec_reg_from_code(byte_at(payload, i0 + 2 + k) / 4 % 4),
                                })
                            &&& forall|k: int|
                                0 <= k < transfer_idx as int ==> (#[trigger] outs[k]) is Done
                            &&& resp.buf@ == spec_transfer_partial(base, outs, transfer_idx as int)
                            &&& resp.idx as int == 3 + 4 * transfer_idx as int
                        },
                        cnd ==> aborted ==> {
                            &&& first_fail_from(outs, 0, n) < n
                            &&& resp.buf@ == spec_transfer_buf(base, outs, n)
                            &&& resp.idx as int == 3 + 4 * first_fail_from(outs, 0, n)
                            &&& swd.txn_log().len() == log0.len() + first_fail_from(outs, 0, n) + 1
                            &&& forall|k: int|
                                0 <= k < first_fail_from(outs, 0, n) + 1 ==> #[trigger] swd.txn_log()[log0.len()
                                    + k] == (Txn::Read {
                                    port: APnDP::DP,
                                    addr: spec_reg_from_code(byte_at(payload, i0 + 2 + k) / 4 % 4),
                                })
                        },
                        cndw ==> !aborted ==> {
                            &&& transfer_idx as int <= n
                            &&& req.idx as int == i0 + 2 + 5 * transfer_idx as int
                            &&& swd.future_outcomes() == outs.skip(transfer_idx as int)
                            &&& swd.txn_log().len() == log0.len() + transfer_idx as int
                            &&& forall|k: int|
                                0 <= k < transfer_idx as int ==> #[trigger] swd.txn_log()[log0.len()
                                    + k] == (Txn::Write {
                                    port: APnDP::DP,
                                    addr: spec_reg_from_code(
                                        byte_at(payload, i0 + 2 + 5 * k) / 4 % 4,
                                    ),
                                    data: (u32_at(payload, i0 + 3 + 5 * k) as u32),
                                })
                            &&& forall|k: int|
                                0 <= k < transfer_idx as int ==> (#[trigger] outs[k]) is Done
                            &&& resp.buf@ == spec_transfer_write_partial(base, transfer_idx as int)
                            &&& resp.idx as int == 3
                        },
                        cndm ==> {
                            &&& !aborted
                            &&& transfer_idx as int <= n
                            &&& req.idx as int == i0 + 2 + 5 * transfer_idx as int
                            &&& *swd == swd0
                            &&& resp.buf@ == spec_transfer_mask_buf(base, transfer_idx as int)
                            &&& resp.idx as int == 3
                        },
                        cndv ==> match_mask == 0xFFFF_FFFFu32,
                        cndv ==> !aborted ==> {
                            &&& transfer_idx == 0
                            &&& req.idx as int == i0 + 2
                            &&& swd.future_outcomes() == outs
                            &&& swd.txn_log() == log0
                            &&& resp.buf@ == spec_transfer_mask_buf(base, 0)
                            &&& resp.idx as int == 3
                        },
                        cndv ==> aborted ==> {
                            &&& resp.buf@ == spec_vmatch_exhaust_buf(base)
                            &&& resp.idx as int == 3
                            &&& swd.txn_log().len() == log0.len() + mretries + 1
                            &&& forall|k: int|
                                0 <= k < mretries + 1 ==> #[trigger] swd.txn_log()[log0.len() + k]
                                    == (Txn::Read {
                                    port: APnDP::DP,
                                    addr: spec_reg_from_code(byte_at(payload, i0 + 2) / 4 % 4),
                                })
                        },
                        cnda ==> !aborted && transfer_idx <= 1,
                        cnda ==> transfer_idx == 0 ==> {
                            &&& req.idx as int == i0 + 2
                            &&& swd.future_outcomes() == outs
                            &&& swd.txn_log() == log0
                            &&& resp.buf@ == spec_transfer_mask_buf(base, 0)
                            &&& resp.idx as int == 3
                        },
                        cnda ==> transfer_idx == 1 ==> {
                            &&& resp.buf@ == spec_ap_read_buf(base, word_of_outcome(outs[1]))
                            &&& resp.idx as int == 7
                            &&& swd.txn_log() == log0.push(
                                Txn::Read {
                                    port: APnDP::AP,
                                    addr: spec_reg_from_code(byte_at(payload, i0 + 2) / 4 % 4),
                                },
                            ).push(Txn::Read { port: APnDP::DP, addr: DPRegister::RDBUFF })
                        },
                        cndw ==> aborted ==> {
                            &&& first_fail_from(outs, 0, n) < n
                            &&& resp.buf@ == spec_transfer_write_buf(base, outs, n)
                            &&& resp.idx as int == 3
                            &&& swd.txn_log().len() == log0.len() + first_fail_from(outs, 0, n) + 1
                            &&& forall|k: int|
                                0 <= k < first_fail_from(outs, 0, n) + 1 ==> #[trigger] swd.txn_log()[log0.len()
                                    + k] == (Txn::Write {
                                    port: APnDP::DP,
                                    addr: spec_reg_from_code(
                                        byte_at(payload, i0 + 2 + 5 * k) / 4 % 4,
                                    ),
                                    data: (u32_at(payload, i0 + 3 + 5 * k) as u32),
                                })
                        },
                    decreases (ntransfers - transfer_idx) as int + (if aborted {
                        0int
                    } else {
                        1int
                    }),
                {
                    let ghost kk = transfer_idx as int;
                    let ghost pre_log = swd.txn_log();
                    resp.write_u8_at(1, transfer_idx + 1);
                    let transfer_req = req.next_u8();
                    let apndp = if transfer_req % 2 == 1 {
                        APnDP::AP
                    } else {
                        APnDP::DP
                    };
                    let rnw = if (transfer_req / 2) % 2 == 1 {
                        RnW::R
                    } else {
                        RnW::W
                    };
                    let reg_code = (transfer_req / 4) % 4;
                    let a = match DPRegister::from_code(reg_code) {
                        Some(a) => a,
                        None => vstd::pervasive::unreached(),
                    };
                    let vmatch = (transfer_req / 16) % 2 == 1;
                    let mmask = (transfer_req / 32) % 2 == 1;
                    proof {
                        if cnd {
                            assert(kk < n);
                            assert(transfer_req as int == byte_at(payload, i0 + 2 + kk));
                            assert(is_plain_dp_read(transfer_req as int));
                            assert(apndp is DP && rnw is R && !vmatch && !mmask);
                            assert(a == spec_reg_from_code(byte_at(payload, i0 + 2 + kk) / 4 % 4));
                        }
                        if cndw {
                            assert(kk < n);
                            assert(transfer_req as int == byte_at(payload, i0 + 2 + 5 * kk));
                            assert(is_plain_dp_write(transfer_req as int));
                            assert(apndp is DP && rnw is W && !mmask);
                            assert(a == spec_reg_from_code(
                                byte_at(payload, i0 + 2 + 5 * kk) / 4 % 4,
                            ));
                        }
                        if cndm {
                            assert(kk < n);
                            assert(transfer_req as int == byte_at(payload, i0 + 2 + 5 * kk));
                            assert(is_mask_write(transfer_req as int));
                            assert(rnw is W && mmask);
                        }
                        if cndv {
                            assert(kk == 0);
                            assert(transfer_req as int == byte_at(payload, i0 + 2));
                            assert(is_vmatch_dp_read(transfer_req as int));
                            assert(apndp is DP && rnw is R && vmatch && !mmask);
                            assert(a == spec_reg_from_code(byte_at(payload, i0 + 2) / 4 % 4));
                        }
                        if cnda {
                            assert(kk == 0);
                            assert(transfer_req as int == byte_at(payload, i0 + 2));
                            assert(is_plain_ap_read(transfer_req as int));
                            assert(apndp is AP && rnw is R && !vmatch && !mmask);
                            assert(a == spec_reg_from_code(byte_at(payload, i0 + 2) / 4 % 4));
                        }
                    }
                    if rnw == RnW::R {
                        let ghost pre_future = swd.future_outcomes();
                        let read0 = if apndp == APnDP::AP {
                            // AP reads are posted: issue the read, then
                            // drain the result through RDBUFF.
                            let r1 = swd_read(swd, wait_retries, APnDP::AP, a);
                            proof {
                                if cnda {
                                    assert(pre_future == outs);
                                    assert(outs[0] is Done);
                                    assert(retry_result(outs, wait_retries as int) == outs[0]);
                                    assert(retry_attempts(outs, wait_retries as int) == 1);
                                    assert(swd.future_outcomes() == outs.skip(1));
                                    assert(swd.txn_log() =~= log0.push(
                                        Txn::Read { port: APnDP::AP, addr: a },
                                    ));
                                }
                            }
                            match check(r1, resp, 2) {
                                Some(_) => {
                                    let ghost mid_log = swd.txn_log();
                                    let r2 = swd_read(
                                        swd,
                                        wait_retries,
                                        APnDP::DP,
                                        DPRegister::RDBUFF,
                                    );
                                    proof {
                                        if cnda {
                                            assert(outs.skip(1).len() == outs.len() - 1);
                                            assert(outs.skip(1)[0] == outs[1]);
                                            assert(outs[1] is Done);
                                            assert(retry_result(
                                                outs.skip(1),
                                                wait_retries as int,
                                            ) == outs[1]);
                                            assert(retry_attempts(
                                                outs.skip(1),
                                                wait_retries as int,
                                            ) == 1);
                                            assert(swd.txn_log() =~= mid_log.push(
                                                Txn::Read {
                                                    port: APnDP::DP,
                                                    addr: DPRegister::RDBUFF,
                                                },
                                            ));
                                        }
                                    }
                                    check(r2, resp, 2)
                                },
                                None => {
                                    proof {
                                        if cnda {
                                            assert(false);
                                        }
                                    }
                                    None
                                },
                            }
                        } else {
                            let r = swd_read(swd, wait_retries, APnDP::DP, a);
                            check(r, resp, 2)
                        };
                        proof {
                            if cnd {
                                assert(pre_future == outs.skip(kk));
                                lemma_scripted_step(outs, kk, wait_retries as int);
                                assert(swd.future_outcomes() == outs.skip(kk).skip(1));
                                assert(swd.txn_log().len() == log0.len() + kk + 1);
                                assert(swd.txn_log()[log0.len() + kk] == (Txn::Read {
                                    port: APnDP::DP,
                                    addr: a,
                                }));
                                assert(forall|k: int|
                                    0 <= k < kk ==> #[trigger] swd.txn_log()[log0.len() + k]
                                        == pre_log[log0.len() + k]);
                            }
                            if cndv {
                                assert(pre_future == outs);
                                assert(outs[0] is Done);
                                assert(retry_result(outs, wait_retries as int) == outs[0]);
                                assert(retry_attempts(outs, wait_retries as int) == 1);
                                assert(swd.future_outcomes() == outs.skip(1));
                                assert(swd.txn_log().len() == log0.len() + 1);
                                assert(swd.txn_log()[log0.len() as int] == (Txn::Read {
                                    port: APnDP::DP,
                                    addr: a,
                                }));
                            }
                        }
                        match read0 {
                            Some(read_value) => {
                                let mut read_value = read_value;
                                if vmatch {
                                    let target_value = req.next_u32();
                                    proof {
                                        if cndv {
                                            lemma_mask_all_ones(read_value);
                                            assert(target_value as int == u32_at(payload, i0 + 3));
                                            assert(read_value == word_of_outcome(outs[0]));
                                            assert(resp.buf@ =~= spec_vmatch_running_buf(base));
                                        }
                                    }
                                    let mut match_tries: usize = 0;
                                    let mut read_err = false;
                                    while (read_value & match_mask) != target_value && !read_err
                                        invariant
                                            match_tries <= mretries,
                                            req.wf(),
                                            resp.wf(),
                                            resp.buf@.len() == base.len(),
                                            resp.idx >= old(resp).idx,
                        old(resp).idx >= 1 && base.len() > 0 ==> resp.buf@[0] == base[0],
                                            req.data == old(req).data,
                                            req.command == old(req).command,
                                            cndv ==> {
                                                &&& resp.buf@ == spec_vmatch_running_buf(base)
                                                &&& resp.idx as int == 3
                                                &&& target_value as int == u32_at(payload, i0 + 3)
                                                &&& match_mask == 0xFFFF_FFFFu32
                                                &&& (!read_err ==> {
                                                    &&& read_value == word_of_outcome(
                                                        outs[match_tries as int],
                                                    )
                                                    &&& swd.future_outcomes() == outs.skip(
                                                        1 + match_tries as int,
                                                    )
                                                    &&& swd.txn_log().len() == log0.len() + 1
                                                        + match_tries as int
                                                    &&& forall|k: int|
                                                        0 <= k < 1 + match_tries as int
                                                            ==> #[trigger] swd.txn_log()[log0.len()
                                                            + k] == (Txn::Read {
                                                            port: APnDP::DP,
                                                            addr: a,
                                                        })
                                                })
                                                &&& (read_err ==> {
                                                    &&& match_tries == mretries
                                                    &&& read_value == word_of_outcome(
                                                        outs[mretries as int],
                                                    )
                                                    &&& swd.txn_log().len() == log0.len() + 1
                                                        + mretries as int
                                                    &&& forall|k: int|
                                                        0 <= k < 1 + mretries as int
                                                            ==> #[trigger] swd.txn_log()[log0.len()
                                                            + k] == (Txn::Read {
                                                            port: APnDP::DP,
                                                            addr: a,
                                                        })
                                                })
                                            },
                                        decreases (mretries - match_tries) as int + (if read_err {
                                            0int
                                        } else {
                                            1int
                                        }),
                                    {
                                        if match_tries >= mretries {
                                            read_err = true;
                                        } else {
                                            let ghost t_old = match_tries as int;
                                            let ghost pre_vf = swd.future_outcomes();
                                            let ghost pre_vlog = swd.txn_log();
                                            match_tries = match_tries + 1;
                                            match check(
                                                swd_read(swd, wait_retries, apndp, a),
                                                resp,
                                                2,
                                            ) {
                                                Some(v) => {
                                                    read_value = v;
                                                    proof {
                                                        if cndv {
                                                            lemma_mask_all_ones(v);
                                                            assert(pre_vf == outs.skip(1 + t_old));
                                                            assert(outs[1 + t_old] is Done);
                                                            lemma_scripted_step(
                                                                outs,
                                                                1 + t_old,
                                                                wait_retries as int,
                                                            );
                                                            assert(swd.future_outcomes()
                                                                == outs.skip(1 + t_old).skip(1));
                                                            assert(swd.txn_log().len()
                                                                == log0.len() + 1 + t_old + 1);
                                                            assert(swd.txn_log()[log0.len() + 1
                                                                + t_old] == (Txn::Read {
                                                                port: APnDP::DP,
                                                                addr: a,
                                                            }));
                                                            assert(forall|k: int|
                                                                0 <= k < 1 + t_old
                                                                    ==> #[trigger] swd.txn_log()[log0.len()
                                                                    + k] == pre_vlog[log0.len()
                                                                    + k]);
                                                            assert(resp.buf@
                                                                =~= spec_vmatch_running_buf(base));
                                                        }
                                                    }
                                                },
                                                None => {
                                                    read_err = true;
                                                    proof {
                                                        if cndv {
                                                            assert(pre_vf == outs.skip(1 + t_old));
                                                            assert(outs.skip(1 + t_old)[0]
                                                                == outs[1 + t_old]);
                                                            assert(outs[1 + t_old] is Done);
                                                            assert(false);
                                                        }
                                                    }
                                                },
                                            }
                                        }
                                    }
                                    proof {
                                        if cndv {
                                            lemma_mask_all_ones(read_value);
                                        }
                                    }
                                    if (read_value & match_mask) != target_value {
                                        // Exhausted retries without a
                                        // match: flag and stop.
                                        let flags = resp.read_u8_at(1);
                                        resp.write_u8_at(1, flags | 16);
                                        aborted = true;
                                        proof {
                                            if cndv {
                                                assert(flags == 1u8);
                                                assert(1u8 | 16u8 == 0x11u8) by (bit_vector);
                                                assert(resp.buf@ =~= spec_vmatch_exhaust_buf(
                                                    base,
                                                ));
                                            }
                                        }
                                    }
                                } else {
                                    resp.write_u32(read_value);
                                    proof {
                                        if cnd {
                                            assert(outs[kk] is Done);
                                            assert(read_value == word_of_outcome(outs[kk]));
                                            assert(resp.buf@ =~= spec_transfer_partial(
                                                base,
                                                outs,
                                                kk + 1,
                                            ));
                                        }
                                        if cnda {
                                            assert(read_value == word_of_outcome(outs[1]));
                                            assert(resp.buf@ =~= spec_ap_read_buf(
                                                base,
                                                word_of_outcome(outs[1]),
                                            ));
                                        }
                                    }
                                }
                            },
                            None => {
                                aborted = true;
                                proof {
                                    if cnd {
                                        assert(!(outs[kk] is Done));
                                        lemma_first_fail_at(outs, 0, kk, n);
                                        assert(resp.buf@ =~= spec_transfer_buf(base, outs, n));
                                    }
                                    if cnda {
                                        assert(false);
                                    }
                                }
                            },
                        }
                    } else {
                        if mmask {
                            // A write with the match-mask bit only
                            // updates the mask; no transfer happens.
                            match_mask = req.next_u32();
                            proof {
                                if cndm {
                                    assert(resp.buf@ =~= spec_transfer_mask_buf(base, kk + 1));
                                }
                            }
                        } else {
                            let ghost pre_future = swd.future_outcomes();
                            let write_value = req.next_u32();
                            proof {
                                if cndw {
                                    assert(write_value as int == u32_at(payload, i0 + 3 + 5 * kk));
                                }
                            }
                            let r = swd_write(swd, wait_retries, apndp, a, write_value);
                            proof {
                                if cndw {
                                    assert(pre_future == outs.skip(kk));
                                    assert(outs.skip(kk).len() == outs.len() - kk);
                                    assert(outs.skip(kk)[0] == outs[kk]);
                                    assert(!(outs[kk] is Wait));
                                    assert(retry_result(outs.skip(kk), wait_retries as int)
                                        == outs[kk]);
                                    assert(retry_attempts(outs.skip(kk), wait_retries as int)
                                        == 1);
                                    assert(swd.future_outcomes() == outs.skip(kk).skip(1));
                                    assert(outs.skip(kk).skip(1) =~= outs.skip(kk + 1));
                                    assert(swd.txn_log().len() == log0.len() + kk + 1);
                                    assert(forall|k: int|
                                        0 <= k < kk ==> #[trigger] swd.txn_log()[log0.len() + k]
                                            == pre_log[log0.len() + k]);
                                }
                            }
                            match check(r, resp, 2) {
                                Some(_) => {
                                    proof {
                                        if cndw {
                                            assert(outs[kk] is Done);
                                            assert(resp.buf@ =~= spec_transfer_write_partial(
                                                base,
                                                kk + 1,
                                            ));
                                        }
                                    }
                                },
                                None => {
                                    aborted = true;
                                    proof {
                                        if cndw {
                                            assert(!(outs[kk] is Done));
                                            lemma_first_fail_at(outs, 0, kk, n);
                                            assert(resp.buf@ =~= spec_transfer_write_buf(
                                                base,
                                                outs,
                                                n,
                                            ));
                                        }
                                    }
                                },
                            }
                        }
                    }
                    if !aborted {
                        transfer_idx = transfer_idx + 1;
                    }
                }
                proof {
                    if cnd && !aborted {
                        assert(transfer_idx as int == n);
                        assert(forall|j: int| 0 <= j < n ==> (#[trigger] outs[j]) is Done);
                        lemma_first_fail_all_done(outs, 0, n);
                        assert(resp.buf@ =~= spec_transfer_buf(base, outs, n));
                    }
                    if cndw && !aborted {
                        assert(transfer_idx as int == n);
                        assert(forall|j: int| 0 <= j < n ==> (#[trigger] outs[j]) is Done);
                        lemma_first_fail_all_done(outs, 0, n);
                        assert(resp.buf@ =~= spec_transfer_write_buf(base, outs, n));
                    }
                }
            },
            _ => {
                return ;
            },
        }
    }


    /// Run a block of transfers that share one direction and register.
    /// When reading an Access Port register the first read is posted
    /// early and the final value drained through the read buffer; the
    /// count field reports where a failing block stopped.  For a block
    /// of plain DP reads on an announced driver the whole response and
    /// transaction log are pinned exactly.
    #[verifier::loop_isolation(false)]
    #[verifier::rlimit(100)]
    #[verifier::spinoff_prover]
    fn process_transfer_block(&mut self, req: &mut Request, resp: &mut ResponseWriter)
        requires
            old(self).wf(),
            old(req).wf(),
            old(resp).wf(),
            old(resp).buf@.len() >= 4,
        ensures
            final(self).wf(),
            final(req).wf(),
            final(resp).wf(),
            final(resp).buf@.len() == old(resp).buf@.len(),
            old(resp).idx >= 1 && old(resp).buf@.len() > 0 ==> final(resp).buf@[0] == old(
                resp,
            ).buf@[0],
            final(resp).idx >= old(resp).idx,
            final(self).state.obs() == obs_to_last_mode(old(self).state.obs()),
            final(self).swd_wait_retries == old(self).swd_wait_retries,
            final(self).match_retries == old(self).match_retries,
            final(self).leds == old(self).leds,
            final(self).version_string == old(self).version_string,
            // A write block is pinned the same way: count and status
            // fields, the issued transactions, and nothing else.
            (*old(self)).state matches State::Swd(swd) ==> (plain_dp_write_block_setup(
                old(req).data@,
                old(req).idx as int,
                swd.future_outcomes(),
                old(self).swd_wait_retries as int,
                old(resp).buf@.len() as int,
                old(resp).idx as int,
            ) ==> {
                let payload = old(req).data@;
                let i0 = old(req).idx as int;
                let outs = swd.future_outcomes();
                let n = u16_at(payload, i0 + 1);
                let f = first_fail_from(outs, 0, n);
                let executed = if f < n {
                    f + 1
                } else {
                    n
                };
                &&& final(resp).buf@ == spec_block_write_buf(old(resp).buf@, outs, n)
                &&& final(resp).idx == 4
                &&& (*final(self)).state matches State::Swd(swd2) && swd2.txn_log().len()
                    == swd.txn_log().len() + executed && (forall|k: int|
                    0 <= k < executed ==> #[trigger] swd2.txn_log()[swd.txn_log().len() + k]
                        == (Txn::Write {
                        port: APnDP::DP,
                        addr: spec_reg_from_code(byte_at(payload, i0 + 3) / 4 % 4),
                        data: (u32_at(payload, i0 + 4 + 4 * k) as u32),
                    }))
            }),
            // When the early posted read of an Access Port block fails,
            // the block reports one attempted transfer and that
            // failure's status, and nothing further is issued.
            (*old(self)).state matches State::Swd(swd) ==> ({
                let payload = old(req).data@;
                let i0 = old(req).idx as int;
                let outs = swd.future_outcomes();
                let b = byte_at(payload, i0 + 3);
                let setup_ap_fail = {
                    &&& old(resp).idx == 1
                    &&& old(self).swd_wait_retries >= 1
                    &&& i0 >= 0
                    &&& i0 + 4 <= payload.len()
                    &&& 4 <= old(resp).buf@.len()
                    &&& outs.len() >= old(self).swd_wait_retries
                    &&& b % 2 == 1
                    &&& (b / 2) % 2 == 1
                    &&& !((outs[0]) is Done)
                    &&& !((outs[0]) is Wait)
                };
                setup_ap_fail ==> {
                    &&& final(resp).buf@ == Seq::new(
                        old(resp).buf@.len(),
                        |i: int|
                            if i == 1 {
                                1u8
                            } else if i == 2 {
                                0u8
                            } else if i == 3 {
                                status_of_outcome(outs[0])
                            } else {
                                old(resp).buf@[i]
                            },
                    )
                    &&& final(resp).idx == 4
                    &&& (*final(self)).state matches State::Swd(swd2) && swd2.txn_log()
                        == swd.txn_log().push(
                        Txn::Read {
                            port: APnDP::AP,
                            addr: spec_reg_from_code(byte_at(payload, i0 + 3) / 4 % 4),
                        },
                    )
                }
            }),
            (*old(self)).state matches State::Swd(swd) ==> ({
                let payload = old(req).data@;
                let i0 = old(req).idx as int;
                let outs = swd.future_outcomes();
                let n = u16_at(payload, i0 + 1);
                let b = byte_at(payload, i0 + 3);
                let setup = {
                    &&& old(resp).idx == 1
                    &&& old(self).swd_wait_retries >= 1
                    &&& i0 >= 0
                    &&& i0 + 4 <= payload.len()
                    &&& 4 + 4 * n <= old(resp).buf@.len()
                    &&& outs.len() >= n + old(self).swd_wait_retries
                    &&& is_plain_dp_read(b)
                    &&& forall|k: int| 0 <= k < n ==> !((#[trigger] outs[k]) is Wait)
                };
                setup ==> {
                    let f = first_fail_from(outs, 0, n);
                    let executed = if f < n {
                        f + 1
                    } else {
                        n
                    };
                    &&& final(resp).buf@ == spec_block_buf(old(resp).buf@, outs, n)
                    &&& final(resp).idx == 4 + 4 * (if f < n {
                        f
                    } else {
                        n
                    })
                    &&& final(self).state matches State::Swd(swd2) && swd2.txn_log().len()
                        == swd.txn_log().len() + executed && (forall|k: int|
                        0 <= k < executed ==> #[trigger] swd2.txn_log()[swd.txn_log().len() + k]
                            == (Txn::Read { port: APnDP::DP, addr: spec_reg_from_code(b / 4 % 4) }))
                }
            }),
    {
        self.state.to_last_mode();
        let _dap_index = req.next_u8();
        let ntransfers = req.next_u16();
        let transfer_req = req.next_u8();
        let apndp = if transfer_req % 2 == 1 {
            APnDP::AP
        } else {
            APnDP::DP
        };
        let rnw = if (transfer_req / 2) % 2 == 1 {
            RnW::R
        } else {
            RnW::W
        };
        let reg_code = (transfer_req / 4) % 4;
        let a = match DPRegister::from_code(reg_code) {
            Some(a) => a,
            None => vstd::pervasive::unreached(),
        };
        let wait_retries = self.swd_wait_retries;
        let ghost payload = old(req).data@;
        let ghost i0 = old(req).idx as int;
        let ghost base = old(resp).buf@;
        match &mut self.state {
            State::Swd(swd) => {
                let ghost outs = swd.future_outcomes();
                let ghost log0 = swd.txn_log();
                let ghost n = u16_at(payload, i0 + 1);
                let ghost cnd = (*old(self)).state matches State::Swd(s0) && outs
                    == s0.future_outcomes() && old(resp).idx == 1 && wait_retries >= 1 && i0 >= 0
                    && i0 + 4 <= payload.len() && 4 + 4 * n <= base.len() && outs.len() >= n
                    + wait_retries && is_plain_dp_read(byte_at(payload, i0 + 3)) && (forall|k: int|
                    0 <= k < n ==> !((#[trigger] outs[k]) is Wait));
                let ghost cndw = (*old(self)).state matches State::Swd(s0) && outs
                    == s0.future_outcomes() && plain_dp_write_block_setup(
                    payload,
                    i0,
                    outs,
                    wait_retries as int,
                    base.len() as int,
                    old(resp).idx as int,
                );
                let ghost cndaf = (*old(self)).state matches State::Swd(s0) && outs
                    == s0.future_outcomes() && old(resp).idx == 1 && wait_retries >= 1 && i0 >= 0
                    && i0 + 4 <= payload.len() && 4 <= base.len() && outs.len() >= wait_retries
                    && byte_at(payload, i0 + 3) % 2 == 1 && (byte_at(payload, i0 + 3) / 2) % 2 == 1
                    && !((outs[0]) is Done) && !((outs[0]) is Wait);
                // Reserve the count field and the status byte.
                resp.write_u16(0);
                resp.write_u8(0);
                proof {
                    if cnd {
                        assert(ntransfers as int == n);
                        assert(transfer_req as int == byte_at(payload, i0 + 3));
                        assert(apndp is DP && rnw is R);
                        assert(a == spec_reg_from_code(byte_at(payload, i0 + 3) / 4 % 4));
                        assert(resp.buf@ =~= spec_block_partial(base, outs, 0));
                    }
                    if cndw {
                        assert(ntransfers as int == n);
                        assert(transfer_req as int == byte_at(payload, i0 + 3));
                        assert(apndp is DP && rnw is W);
                        assert(a == spec_reg_from_code(byte_at(payload, i0 + 3) / 4 % 4));
                        assert(resp.buf@ =~= spec_block_write_partial(base, 0));
                    }
                    if cndaf {
                        assert(transfer_req as int == byte_at(payload, i0 + 3));
                        assert(apndp is AP && rnw is R);
                        assert(a == spec_reg_from_code(byte_at(payload, i0 + 3) / 4 % 4));
                    }
                }
                let mut transfers: u16 = 0;
                // When reading an Access Port, post the first read
                // early; its value arrives with a later drain.
                if rnw == RnW::R && apndp == APnDP::AP {
                    let ghost pre_post = swd.future_outcomes();
                    let r = swd_read(swd, wait_retries, APnDP::AP, a);
                    proof {
                        if cndaf {
                            assert(retry_result(outs, wait_retries as int) == outs[0]);
                            assert(retry_attempts(outs, wait_retries as int) == 1);
                            assert(swd.txn_log() =~= log0.push(
                                Txn::Read { port: APnDP::AP, addr: a },
                            ));
                        }
                    }
                    match check(r, resp, 3) {
                        Some(_) => {
                            proof {
                                if cndaf {
                                    // The announced first outcome is a
                                    // failure, so the posted read
                                    // cannot have succeeded.
                                    assert(false);
                                }
                            }
                        },
                        None => {
                            // The block never started: report one
                            // attempted transfer and stop.
                            resp.write_u16_at(1, 1);
                            proof {
                                if cndaf {
                                    assert(resp.buf@ =~= Seq::new(
                                        base.len(),
                                        |i: int|
                                            if i == 1 {
                                                1u8
                                            } else if i == 2 {
                                                0u8
                                            } else if i == 3 {
                                                status_of_outcome(outs[0])
                                            } else {
                                                base[i]
                                            },
                                    ));
                                }
                            }
                            return ;
                        },
                    }
                }
                let mut transfer_idx: u16 = 0;
                let mut aborted = false;
                while transfer_idx < ntransfers && !aborted
                    invariant
                        req.wf(),
                        resp.wf(),
                        resp.buf@.len() == base.len(),
                        resp.idx >= old(resp).idx,
                        old(resp).idx >= 1 && base.len() > 0 ==> resp.buf@[0] == base[0],
                        req.data == old(req).data,
                        req.command == old(req).command,
                        transfer_idx <= ntransfers,
                        !aborted ==> transfers == if transfer_idx == 0 {
                            0u16
                        } else {
                            (transfer_idx - 1) as u16
                        },
                        aborted ==> transfers == transfer_idx && transfer_idx < ntransfers,
                        cnd ==> !aborted ==> {
                            &&& transfer_idx as int <= n
                            &&& swd.future_outcomes() == outs.skip(transfer_idx as int)
                            &&& swd.txn_log().len() == log0.len() + transfer_idx as int
                            &&& forall|k: int|
                                0 <= k < transfer_idx as int ==> #[trigger] swd.txn_log()[log0.len()
                                    + k] == (Txn::Read {
                                    port: APnDP::DP,
                                    addr: spec_reg_from_code(byte_at(payload, i0 + 3) / 4 % 4),
                                })
                            &&& forall|k: int|
                                0 <= k < transfer_idx as int ==> (#[trigger] outs[k]) is Done
                            &&& resp.buf@ == spec_block_partial(base, outs, transfer_idx as int)
                            &&& resp.idx as int == 4 + 4 * transfer_idx as int
                        },
                        cnd ==> aborted ==> {
                            &&& first_fail_from(outs, 0, n) < n
                            &&& transfers as int == first_fail_from(outs, 0, n)
                            &&& resp.buf@ == spec_block_partial(
                                base,
                                outs,
                                first_fail_from(outs, 0, n),
                            ).update(3, status_of_outcome(outs[first_fail_from(outs, 0, n)]))
                            &&& resp.idx as int == 4 + 4 * first_fail_from(outs, 0, n)
                            &&& swd.txn_log().len() == log0.len() + first_fail_from(outs, 0, n) + 1
                            &&& forall|k: int|
                                0 <= k < first_fail_from(outs, 0, n) + 1 ==> #[trigger] swd.txn_log()[log0.len()
                                    + k] == (Txn::Read {
                                    port: APnDP::DP,
                                    addr: spec_reg_from_code(byte_at(payload, i0 + 3) / 4 % 4),
                                })
                        },
                        cndw ==> !aborted ==> {
                            &&& transfer_idx as int <= n
                            &&& req.idx as int == i0 + 4 + 4 * transfer_idx as int
                            &&& swd.future_outcomes() == outs.skip(transfer_idx as int)
                            &&& swd.txn_log().len() == log0.len() + transfer_idx as int
                            &&& forall|k: int|
                                0 <= k < transfer_idx as int ==> #[trigger] swd.txn_log()[log0.len()
                                    + k] == (Txn::Write {
                                    port: APnDP::DP,
                                    addr: spec_reg_from_code(byte_at(payload, i0 + 3) / 4 % 4),
                                    data: (u32_at(payload, i0 + 4 + 4 * k) as u32),
                                })
                            &&& forall|k: int|
                                0 <= k < transfer_idx as int ==> (#[trigger] outs[k]) is Done
                            &&& resp.buf@ == spec_block_write_partial(base, transfer_idx as int)
                            &&& resp.idx as int == 4
                        },
                        cndw ==> aborted ==> {
                            &&& first_fail_from(outs, 0, n) < n
                            &&& transfers as int == first_fail_from(outs, 0, n)
                            &&& resp.buf@ == spec_block_write_partial(
                                base,
                                first_fail_from(outs, 0, n),
                            ).update(3, status_of_outcome(outs[first_fail_from(outs, 0, n)]))
                            &&& resp.idx as int == 4
                            &&& swd.txn_log().len() == log0.len() + first_fail_from(outs, 0, n) + 1
                            &&& forall|k: int|
                                0 <= k < first_fail_from(outs, 0, n) + 1 ==> #[trigger] swd.txn_log()[log0.len()
                                    + k] == (Txn::Write {
                                    port: APnDP::DP,
                                    addr: spec_reg_from_code(byte_at(payload, i0 + 3) / 4 % 4),
                                    data: (u32_at(payload, i0 + 4 + 4 * k) as u32),
                                })
                        },
                    decreases (ntransfers - transfer_idx) as int + (if aborted {
                        0int
                    } else {
                        1int
                    }),
                {
                    let ghost kk = transfer_idx as int;
                    let ghost pre_log = swd.txn_log();
                    let ghost pre_future = swd.future_outcomes();
                    transfers = transfer_idx;
                    if rnw == RnW::R {
                        let r = if apndp == APnDP::AP {
                            if transfer_idx < ntransfers - 1 {
                                swd_read(swd, wait_retries, APnDP::AP, a)
                            } else {
                                // The last read drains the posted
                                // value from the read buffer.
                                swd_read(swd, wait_retries, APnDP::DP, DPRegister::RDBUFF)
                            }
                        } else {
                            swd_read(swd, wait_retries, APnDP::DP, a)
                        };
                        proof {
                            if cnd {
                                assert(pre_future == outs.skip(kk));
                                assert(outs.skip(kk).len() == outs.len() - kk);
                                assert(outs.skip(kk)[0] == outs[kk]);
                                assert(!(outs[kk] is Wait));
                                assert(retry_result(outs.skip(kk), wait_retries as int)
                                    == outs[kk]);
                                assert(retry_attempts(outs.skip(kk), wait_retries as int) == 1);
                                assert(swd.future_outcomes() == outs.skip(kk).skip(1));
                                assert(outs.skip(kk).skip(1) =~= outs.skip(kk + 1));
                                assert(swd.txn_log().len() == log0.len() + kk + 1);
                                assert(forall|k: int|
                                    0 <= k < kk ==> #[trigger] swd.txn_log()[log0.len() + k]
                                        == pre_log[log0.len() + k]);
                            }
                        }
                        match check(r, resp, 3) {
                            Some(read_value) => {
                                resp.write_u32(read_value);
                                proof {
                                    if cnd {
                                        assert(outs[kk] is Done);
                                        assert(read_value == word_of_outcome(outs[kk]));
                                        assert(resp.buf@ =~= spec_block_partial(
                                            base,
                                            outs,
                                            kk + 1,
                                        ));
                                    }
                                }
                            },
                            None => {
                                aborted = true;
                                proof {
                                    if cnd {
                                        assert(!(outs[kk] is Done));
                                        lemma_first_fail_at(outs, 0, kk, n);
                                        assert(resp.buf@ =~= spec_block_partial(
                                            base,
                                            outs,
                                            kk,
                                        ).update(3, status_of_outcome(outs[kk])));
                                    }
                                }
                            },
                        }
                    } else {
                        let write_value = req.next_u32();
                        proof {
                            if cndw {
                                assert(write_value as int == u32_at(payload, i0 + 4 + 4 * kk));
                            }
                        }
                        let r = swd_write(swd, wait_retries, apndp, a, write_value);
                        proof {
                            if cndw {
                                assert(pre_future == outs.skip(kk));
                                assert(outs.skip(kk).len() == outs.len() - kk);
                                assert(outs.skip(kk)[0] == outs[kk]);
                                assert(!(outs[kk] is Wait));
                                assert(retry_result(outs.skip(kk), wait_retries as int)
                                    == outs[kk]);
                                assert(retry_attempts(outs.skip(kk), wait_retries as int) == 1);
                                assert(swd.future_outcomes() == outs.skip(kk).skip(1));
                                assert(outs.skip(kk).skip(1) =~= outs.skip(kk + 1));
                                assert(swd.txn_log().len() == log0.len() + kk + 1);
                                assert(forall|k: int|
                                    0 <= k < kk ==> #[trigger] swd.txn_log()[log0.len() + k]
                                        == pre_log[log0.len() + k]);
                            }
                        }
                        match check(r, resp, 3) {
                            Some(_) => {
                                proof {
                                    if cndw {
                                        assert(outs[kk] is Done);
                                        assert(resp.buf@ =~= spec_block_write_partial(
                                            base,
                                            kk + 1,
                                        ));
                                    }
                                }
                            },
                            None => {
                                aborted = true;
                                proof {
                                    if cndw {
                                        assert(!(outs[kk] is Done));
                                        lemma_first_fail_at(outs, 0, kk, n);
                                        assert(resp.buf@ =~= spec_block_write_partial(
                                            base,
                                            kk,
                                        ).update(3, status_of_outcome(outs[kk])));
                                    }
                                }
                            },
                        }
                    }
                    if !aborted {
                        transfer_idx = transfer_idx + 1;
                        transfers = transfer_idx - 1;
                    }
                }
                // Report how many transfers were attempted.
                resp.write_u16_at(1, transfers + 1);
                proof {
                    if cnd {
                        if !aborted {
                            assert(transfer_idx as int == n);
                            assert(forall|j: int| 0 <= j < n ==> (#[trigger] outs[j]) is Done);
                            lemma_first_fail_all_done(outs, 0, n);
                        }
                        assert(resp.buf@ =~= spec_block_buf(base, outs, n));
                    }
                    if cndw {
                        if !aborted {
                            assert(transfer_idx as int == n);
                            assert(forall|j: int| 0 <= j < n ==> (#[trigger] outs[j]) is Done);
                            lemma_first_fail_all_done(outs, 0, n);
                        }
                        assert(resp.buf@ =~= spec_block_write_buf(base, outs, n));
                    }
                }
            },
            _ => {
                return ;
            },
        }
    }


    /// Process one host command from `report`, writing the response
    /// packet into `rbuf`.  Returns the number of response bytes, zero
    /// for empty or unrecognized requests (which are dropped silently)
    /// and for a transfer abort, which by protocol convention gets no
    /// response.
    pub fn process_command(&mut self, report: &[u8], rbuf: &mut Vec<u8>, version: DapVersion) -> (n:
        usize)
        requires
            old(self).wf(),
        ensures
            final(self).wf(),
            ({
                let cmd = if report@.len() > 0 {
                    spec_command_of(report@[0])
                } else {
                    None
                };
                &&& (cmd is None || cmd == Some(Command::DAP_TransferAbort)) ==> n == 0
                    && *final(rbuf) == *old(rbuf) && *final(self) == *old(self)
                &&& (cmd is Some && cmd != Some(Command::DAP_TransferAbort)) ==> {
                    &&& final(rbuf)@.len() == spec_packet_size(version)
                    &&& 1 <= n <= spec_packet_size(version)
                    &&& final(rbuf)@[0] as int == spec_command_id(cmd->0)
                }
            }),
            // Connecting succeeds exactly when SWD is available and
            // the requested port is the default port or SWD; the
            // failure byte leaves the connection state untouched.
            report@.len() > 0 && spec_command_of(report@[0]) == Some(Command::DAP_Connect) ==> ({
                let b = byte_at(report@.skip(1), 0);
                let success = SWD::spec_available() && (b == 0 || b == 1);
                &&& success ==> final(self).state.obs() is Swd && final(rbuf)@[1]
                    == CONNECT_RESPONSE_SWD && n == 2
                &&& !success ==> final(self).state == old(self).state && final(rbuf)@[1]
                    == CONNECT_RESPONSE_FAILED && n == 2
            }),
            // Disconnecting always parks the port: whatever the prior
            // state, the engine ends idle with the lines released to
            // high impedance, and reports success.
            report@.len() > 0 && spec_command_of(report@[0]) == Some(Command::DAP_Disconnect) ==> {
                &&& final(self).state.obs() == obs_to_none(old(self).state.obs())
                &&& final(self).state matches State::Idle { deps, .. } && !deps.attached()
                &&& final(rbuf)@[1] == DAP_OK
                &&& n == 2
            },
            // An information request leaves the engine untouched and
            // answers each item with its exact bytes.
            report@.len() > 0 && spec_command_of(report@[0]) == Some(Command::DAP_Info) ==> ({
                let payload = report@.skip(1);
                let base = fresh_packet(0x00, spec_packet_size(version));
                let id = spec_info_id_of(byte_at(payload, 0) as u8);
                let m = (final(rbuf)@, n as int);
                &&& *final(self) == *old(self)
                &&& if id == Some(DapInfoID::Capabilities) {
                    let s0 = spec_push(base, 1, 1);
                    m == spec_push(s0.0, s0.1, if SWD::spec_available() {
                        1u8
                    } else {
                        0u8
                    })
                } else if id == Some(DapInfoID::SWOTraceBufferSize) {
                    let s0 = spec_push(base, 1, 4);
                    m == spec_push_u32(s0.0, s0.1, 0)
                } else if id == Some(DapInfoID::MaxPacketCount) {
                    let s0 = spec_push(base, 1, 1);
                    m == spec_push(s0.0, s0.1, 1)
                } else if id == Some(DapInfoID::MaxPacketSize) {
                    let s0 = spec_push(base, 1, 2);
                    let size = spec_packet_size(version);
                    let s1 = spec_push(s0.0, s0.1, (size % 0x100) as u8);
                    m == spec_push(s1.0, s1.1, (size / 0x100) as u8)
                } else if id == Some(DapInfoID::FirmwareVersion) {
                    2 + old(self).version_string@.len() <= base.len() ==> {
                        &&& n == 2 + old(self).version_string@.len()
                        &&& final(rbuf)@ == base.subrange(0, 1).push(
                            old(self).version_string@.len() as u8,
                        ) + old(self).version_string@ + base.skip(
                            2 + old(self).version_string@.len() as int,
                        )
                    }
                } else {
                    m == spec_push(base, 1, 0)
                }
            }),
            // Host status notifications are forwarded to the status
            // sink exactly when the type byte is valid, and always
            // acknowledged.
            report@.len() > 0 && spec_command_of(report@[0]) == Some(Command::DAP_HostStatus)
                ==> ({
                let payload = report@.skip(1);
                let base = fresh_packet(0x01, spec_packet_size(version));
                let t = byte_at(payload, 0) as u8;
                let asserted = byte_at(payload, 1) != 0;
                &&& final(self).state == old(self).state
                &&& final(self).swd_wait_retries == old(self).swd_wait_retries
                &&& final(self).match_retries == old(self).match_retries
                &&& (match spec_host_status_of(t, asserted) {
                    Some(status) => final(self).leds.statuses() == old(self).leds.statuses().push(
                        status,
                    ),
                    None => final(self).leds == old(self).leds,
                })
                &&& (final(rbuf)@, n as int) == spec_push(base, 1, DAP_OK)
            }),
            // An abort-register write restores the last mode, issues
            // only retried writes of the payload word to the abort
            // register, and reports their outcome.
            report@.len() > 0 && spec_command_of(report@[0]) == Some(Command::DAP_WriteABORT)
                ==> ({
                let payload = report@.skip(1);
                let base = fresh_packet(0x08, spec_packet_size(version));
                let m = (final(rbuf)@, n as int);
                let ok = spec_push(base, 1, DAP_OK);
                let err = spec_push(base, 1, DAP_ERROR);
                &&& final(self).state.obs() == obs_to_last_mode(old(self).state.obs())
                &&& (obs_to_last_mode(old(self).state.obs()) is Idle ==> m == err)
                &&& (obs_to_last_mode(old(self).state.obs()) is Swd ==> (m == ok || m == err))
                &&& ((*old(self)).state matches State::Swd(swd)
                    ==> ((*final(self)).state matches State::Swd(swd2) && swd.txn_log().len()
                    <= swd2.txn_log().len() <= swd.txn_log().len() + old(self).swd_wait_retries
                    && swd2.txn_log().subrange(0, swd.txn_log().len() as int) == swd.txn_log() && (
                forall|i: int|
                    swd.txn_log().len() <= i < swd2.txn_log().len() ==> #[trigger] swd2.txn_log()[i]
                        == (Txn::Write {
                        port: APnDP::DP,
                        addr: DPRegister::DPIDR,
                        data: (u32_at(payload, 0) as u32),
                    }))))
                &&& ((*old(self)).state matches State::Swd(swd) ==> (swd.future_outcomes().len()
                    >= old(self).swd_wait_retries ==> {
                    let out = retry_result(
                        swd.future_outcomes(),
                        old(self).swd_wait_retries as int,
                    );
                    m == spec_push(base, 1, if write_of_outcome(out) is Ok {
                        DAP_OK
                    } else {
                        DAP_ERROR
                    })
                }))
            }),
            // Target reset succeeds and announces that no
            // device-specific sequence exists.
            report@.len() > 0 && spec_command_of(report@[0]) == Some(Command::DAP_ResetTarget)
                ==> ({
                let base = fresh_packet(0x0A, spec_packet_size(version));
                let s0 = spec_push(base, 1, DAP_OK);
                &&& *final(self) == *old(self)
                &&& (final(rbuf)@, n as int) == spec_push(s0.0, s0.1, 0)
            }),
            // A pin command parks the port and answers one byte of pin
            // state.
            report@.len() > 0 && spec_command_of(report@[0]) == Some(Command::DAP_SWJ_Pins) ==> ({
                let base = fresh_packet(0x10, spec_packet_size(version));
                &&& final(self).state.obs() == obs_to_none(old(self).state.obs())
                &&& n == 2
                &&& final(rbuf)@.len() == base.len()
                &&& forall|i: int|
                    0 <= i < base.len() && i != 1 ==> final(rbuf)@[i] == #[trigger] base[i]
            }),
            // A clock command reports exactly whether the active form
            // of the port accepts the requested rate.
            report@.len() > 0 && spec_command_of(report@[0]) == Some(Command::DAP_SWJ_Clock) ==> ({
                let payload = report@.skip(1);
                let base = fresh_packet(0x11, spec_packet_size(version));
                &&& final(self).state.obs() == old(self).state.obs()
                &&& (final(rbuf)@, n as int) == spec_push(base, 1, if old(
                    self,
                ).state.spec_clock_accepts(u32_at(payload, 0) as u32) {
                    DAP_OK
                } else {
                    DAP_ERROR
                })
            }),
            // A raw sequence command drives exactly the announced bits
            // after parking the port, or rejects a short payload.
            report@.len() > 0 && spec_command_of(report@[0]) == Some(Command::DAP_SWJ_Sequence)
                ==> ({
                let payload = report@.skip(1);
                let base = fresh_packet(0x12, spec_packet_size(version));
                let n0 = byte_at(payload, 0);
                let nbits = if n0 == 0 {
                    256int
                } else {
                    n0
                };
                let nbytes = (nbits + 7) / 8;
                if nbytes <= payload.len() - 1 {
                    &&& final(self).state.obs() == obs_to_none(old(self).state.obs())
                    &&& (final(rbuf)@, n as int) == spec_push(base, 1, DAP_OK)
                    &&& ((*old(self)).state matches State::Idle { deps: d0, .. }
                        ==> ((*final(self)).state matches State::Idle { deps: d1, .. }
                        && d1.driven() == d0.driven() + crate::swj::swj_seq_bits(
                        payload.subrange(1, 1 + nbytes),
                        nbits,
                    )))
                } else {
                    &&& final(self).state == old(self).state
                    &&& (final(rbuf)@, n as int) == spec_push(base, 1, DAP_ERROR)
                }
            }),
            // Only the default wire configuration is accepted.
            report@.len() > 0 && spec_command_of(report@[0]) == Some(Command::DAP_SWD_Configure)
                ==> ({
                let payload = report@.skip(1);
                let base = fresh_packet(0x13, spec_packet_size(version));
                &&& *final(self) == *old(self)
                &&& (final(rbuf)@, n as int) == spec_push(base, 1, if byte_at(payload, 0) % 8
                    == 0 {
                    DAP_OK
                } else {
                    DAP_ERROR
                })
            }),
            // Configuring transfers records the wait and match retry
            // counts for subsequent batches.
            report@.len() > 0 && spec_command_of(report@[0]) == Some(
                Command::DAP_TransferConfigure,
            ) ==> ({
                let payload = report@.skip(1);
                let base = fresh_packet(0x04, spec_packet_size(version));
                &&& final(self).state == old(self).state
                &&& final(self).leds == old(self).leds
                &&& final(self).swd_wait_retries == u16_at(payload, 1)
                &&& final(self).match_retries == u16_at(payload, 3)
                &&& (final(rbuf)@, n as int) == spec_push(base, 1, DAP_OK)
            }),
            // A transfer batch restores the last mode and touches no
            // configuration.
            report@.len() > 0 && spec_command_of(report@[0]) == Some(Command::DAP_Transfer) ==> {
                &&& final(self).state.obs() == obs_to_last_mode(old(self).state.obs())
                &&& final(self).swd_wait_retries == old(self).swd_wait_retries
                &&& final(self).match_retries == old(self).match_retries
                &&& final(self).leds == old(self).leds
            },
            // A batch of plain DP reads is pinned exactly: response
            // bytes, count, status and the transaction log.
            report@.len() > 0 && spec_command_of(report@[0]) == Some(Command::DAP_Transfer) ==> ((
            *old(self)).state matches State::Swd(swd) ==> (plain_dp_read_setup(
                report@.skip(1),
                0,
                swd.future_outcomes(),
                old(self).swd_wait_retries as int,
                spec_packet_size(version),
                1,
            ) ==> {
                let payload = report@.skip(1);
                let base = fresh_packet(0x05, spec_packet_size(version));
                let outs = swd.future_outcomes();
                let cnt = byte_at(payload, 1);
                let f = first_fail_from(outs, 0, cnt);
                let executed = if f < cnt {
                    f + 1
                } else {
                    cnt
                };
                &&& final(rbuf)@ == spec_transfer_buf(base, outs, cnt)
                &&& n == 3 + 4 * (if f < cnt {
                    f
                } else {
                    cnt
                })
                &&& (*final(self)).state matches State::Swd(swd2) && swd2.txn_log().len()
                    == swd.txn_log().len() + executed && (forall|k: int|
                    0 <= k < executed ==> #[trigger] swd2.txn_log()[swd.txn_log().len() + k]
                        == (Txn::Read {
                        port: APnDP::DP,
                        addr: spec_reg_from_code(byte_at(payload, 2 + k) / 4 % 4),
                    }))
            })),
            // So is a batch of plain DP writes.
            report@.len() > 0 && spec_command_of(report@[0]) == Some(Command::DAP_Transfer) ==> ((
            *old(self)).state matches State::Swd(swd) ==> (plain_dp_write_setup(
                report@.skip(1),
                0,
                swd.future_outcomes(),
                old(self).swd_wait_retries as int,
                spec_packet_size(version),
                1,
            ) ==> {
                let payload = report@.skip(1);
                let base = fresh_packet(0x05, spec_packet_size(version));
                let outs = swd.future_outcomes();
                let cnt = byte_at(payload, 1);
                let f = first_fail_from(outs, 0, cnt);
                let executed = if f < cnt {
                    f + 1
                } else {
                    cnt
                };
                &&& final(rbuf)@ == spec_transfer_write_buf(base, outs, cnt)
                &&& n == 3
                &&& (*final(self)).state matches State::Swd(swd2) && swd2.txn_log().len()
                    == swd.txn_log().len() + executed && (forall|k: int|
                    0 <= k < executed ==> #[trigger] swd2.txn_log()[swd.txn_log().len() + k]
                        == (Txn::Write {
                        port: APnDP::DP,
                        addr: spec_reg_from_code(byte_at(payload, 2 + 5 * k) / 4 % 4),
                        data: (u32_at(payload, 3 + 5 * k) as u32),
                    }))
            })),
            // A posted AP read drains through the read buffer: both
            // transactions appear in the log, the drained word in the
            // response.
            report@.len() > 0 && spec_command_of(report@[0]) == Some(Command::DAP_Transfer) ==> ((
            *old(self)).state matches State::Swd(swd) ==> (ap_read_setup(
                report@.skip(1),
                0,
                swd.future_outcomes(),
                old(self).swd_wait_retries as int,
                spec_packet_size(version),
                1,
            ) ==> {
                let payload = report@.skip(1);
                let base = fresh_packet(0x05, spec_packet_size(version));
                let outs = swd.future_outcomes();
                &&& final(rbuf)@ == spec_ap_read_buf(base, word_of_outcome(outs[1]))
                &&& n == 7
                &&& (*final(self)).state matches State::Swd(swd2) && swd2.txn_log()
                    == swd.txn_log().push(
                    Txn::Read {
                        port: APnDP::AP,
                        addr: spec_reg_from_code(byte_at(payload, 2) / 4 % 4),
                    },
                ).push(Txn::Read { port: APnDP::DP, addr: DPRegister::RDBUFF })
            })),
            // An exhausted value match flags the mismatch and stops
            // after the initial read plus the configured retries.
            report@.len() > 0 && spec_command_of(report@[0]) == Some(Command::DAP_Transfer) ==> ((
            *old(self)).state matches State::Swd(swd) ==> (vmatch_exhaust_setup(
                report@.skip(1),
                0,
                swd.future_outcomes(),
                old(self).swd_wait_retries as int,
                old(self).match_retries as int,
                spec_packet_size(version),
                1,
            ) ==> {
                let payload = report@.skip(1);
                let base = fresh_packet(0x05, spec_packet_size(version));
                &&& final(rbuf)@ == spec_vmatch_exhaust_buf(base)
                &&& n == 3
                &&& (*final(self)).state matches State::Swd(swd2) && swd2.txn_log().len()
                    == swd.txn_log().len() + old(self).match_retries + 1 && (forall|k: int|
                    0 <= k < old(self).match_retries + 1 ==> #[trigger] swd2.txn_log()[swd.txn_log().len()
                        + k] == (Txn::Read {
                        port: APnDP::DP,
                        addr: spec_reg_from_code(byte_at(payload, 2) / 4 % 4),
                    }))
            })),
            // Mask-only batches issue nothing and leave the link
            // untouched.
            report@.len() > 0 && spec_command_of(report@[0]) == Some(Command::DAP_Transfer) ==> ((
            *old(self)).state matches State::Swd(swd) ==> (mask_only_setup(
                report@.skip(1),
                0,
                spec_packet_size(version),
                1,
            ) ==> {
                let payload = report@.skip(1);
                let base = fresh_packet(0x05, spec_packet_size(version));
                let cnt = byte_at(payload, 1);
                &&& final(rbuf)@ == spec_transfer_mask_buf(base, cnt)
                &&& n == 3
                &&& (*final(self)).state matches State::Swd(swd2) && swd2 == swd
            })),
            // A transfer block likewise restores the last mode.
            report@.len() > 0 && spec_command_of(report@[0]) == Some(Command::DAP_TransferBlock)
                ==> {
                &&& final(self).state.obs() == obs_to_last_mode(old(self).state.obs())
                &&& final(self).swd_wait_retries == old(self).swd_wait_retries
                &&& final(self).match_retries == old(self).match_retries
                &&& final(self).leds == old(self).leds
            },
            // A same-register block of plain DP reads is pinned
            // exactly.
            report@.len() > 0 && spec_command_of(report@[0]) == Some(Command::DAP_TransferBlock)
                ==> ((*old(self)).state matches State::Swd(swd) ==> ({
                let payload = report@.skip(1);
                let base = fresh_packet(0x06, spec_packet_size(version));
                let outs = swd.future_outcomes();
                let cnt = u16_at(payload, 1);
                let b = byte_at(payload, 3);
                let setup = {
                    &&& old(self).swd_wait_retries >= 1
                    &&& 4 <= payload.len()
                    &&& 4 + 4 * cnt <= spec_packet_size(version)
                    &&& outs.len() >= cnt + old(self).swd_wait_retries
                    &&& is_plain_dp_read(b)
                    &&& forall|k: int| 0 <= k < cnt ==> !((#[trigger] outs[k]) is Wait)
                };
                setup ==> {
                    let f = first_fail_from(outs, 0, cnt);
                    let executed = if f < cnt {
                        f + 1
                    } else {
                        cnt
                    };
                    &&& final(rbuf)@ == spec_block_buf(base, outs, cnt)
                    &&& n == 4 + 4 * (if f < cnt {
                        f
                    } else {
                        cnt
                    })
                    &&& (*final(self)).state matches State::Swd(swd2) && swd2.txn_log().len()
                        == swd.txn_log().len() + executed && (forall|k: int|
                        0 <= k < executed ==> #[trigger] swd2.txn_log()[swd.txn_log().len() + k]
                            == (Txn::Read {
                            port: APnDP::DP,
                            addr: spec_reg_from_code(b / 4 % 4),
                        }))
                }
            })),
            // So is a write block.
            report@.len() > 0 && spec_command_of(report@[0]) == Some(Command::DAP_TransferBlock)
                ==> ((*old(self)).state matches State::Swd(swd) ==> (plain_dp_write_block_setup(
                report@.skip(1),
                0,
                swd.future_outcomes(),
                old(self).swd_wait_retries as int,
                spec_packet_size(version),
                1,
            ) ==> {
                let payload = report@.skip(1);
                let base = fresh_packet(0x06, spec_packet_size(version));
                let outs = swd.future_outcomes();
                let cnt = u16_at(payload, 1);
                let f = first_fail_from(outs, 0, cnt);
                let executed = if f < cnt {
                    f + 1
                } else {
                    cnt
                };
                &&& final(rbuf)@ == spec_block_write_buf(base, outs, cnt)
                &&& n == 4
                &&& (*final(self)).state matches State::Swd(swd2) && swd2.txn_log().len()
                    == swd.txn_log().len() + executed && (forall|k: int|
                    0 <= k < executed ==> #[trigger] swd2.txn_log()[swd.txn_log().len() + k]
                        == (Txn::Write {
                        port: APnDP::DP,
                        addr: spec_reg_from_code(byte_at(payload, 3) / 4 % 4),
                        data: (u32_at(payload, 4 + 4 * k) as u32),
                    }))
            })),
            // A failing early posted read of an Access Port block
            // reports one attempted transfer and its status.
            report@.len() > 0 && spec_command_of(report@[0]) == Some(Command::DAP_TransferBlock)
                ==> ((*old(self)).state matches State::Swd(swd) ==> ({
                let payload = report@.skip(1);
                let base = fresh_packet(0x06, spec_packet_size(version));
                let outs = swd.future_outcomes();
                let b = byte_at(payload, 3);
                let setup_ap_fail = {
                    &&& old(self).swd_wait_retries >= 1
                    &&& 4 <= payload.len()
                    &&& outs.len() >= old(self).swd_wait_retries
                    &&& b % 2 == 1
                    &&& (b / 2) % 2 == 1
                    &&& !((outs[0]) is Done)
                    &&& !((outs[0]) is Wait)
                };
                setup_ap_fail ==> {
                    &&& final(rbuf)@ == Seq::new(
                        base.len(),
                        |i: int|
                            if i == 1 {
                                1u8
                            } else if i == 2 {
                                0u8
                            } else if i == 3 {
                                status_of_outcome(outs[0])
                            } else {
                                base[i]
                            },
                    )
                    &&& n == 4
                    &&& (*final(self)).state matches State::Swd(swd2) && swd2.txn_log()
                        == swd.txn_log().push(
                        Txn::Read { port: APnDP::AP, addr: spec_reg_from_code(b / 4 % 4) },
                    )
                }
            })),
    {
        let mut req = match Request::from_report(report) {
            Some(req) => req,
            None => {
                return 0;
            },
        };
        let capacity: usize = match version {
            DapVersion::V1 => DAP1_PACKET_SIZE as usize,
            DapVersion::V2 => DAP2_PACKET_SIZE as usize,
        };
        let command = req.command;
        let id_byte = command.id();
        let mut resp = ResponseWriter::new(id_byte, capacity);
        proof {
            assert(resp.buf@ =~= fresh_packet(id_byte, capacity as int));
        }
        match command {
            Command::DAP_Info => self.process_info(&mut req, &mut resp, version),
            Command::DAP_HostStatus => self.process_host_status(&mut req, &mut resp),
            Command::DAP_Connect => self.process_connect(&mut req, &mut resp),
            Command::DAP_Disconnect => self.process_disconnect(&mut resp),
            Command::DAP_WriteABORT => self.process_write_abort(&mut req, &mut resp),
            Command::DAP_ResetTarget => self.process_reset_target(&mut resp),
            Command::DAP_SWJ_Pins => {
                let ghost pre = resp.buf@;
                self.process_swj_pins(&mut req, &mut resp);
                proof {
                    let b = choose|b: u8|
                        (resp.buf@, resp.idx as int) == spec_push(pre, 1, b);
                    assert(resp.buf@ == pre.update(1, b));
                    assert(forall|i: int|
                        0 <= i < pre.len() && i != 1 ==> resp.buf@[i] == #[trigger] pre[i]);
                }
            },
            Command::DAP_SWJ_Clock => self.process_swj_clock(&mut req, &mut resp),
            Command::DAP_SWJ_Sequence => self.process_swj_sequence(&mut req, &mut resp),
            Command::DAP_SWD_Configure => self.process_swd_configure(&mut req, &mut resp),
            Command::DAP_TransferConfigure => self.process_transfer_configure(&mut req, &mut resp),
            Command::DAP_Transfer => self.process_transfer(&mut req, &mut resp),
            Command::DAP_TransferBlock => self.process_transfer_block(&mut req, &mut resp),
            Command::DAP_TransferAbort => {
                self.process_transfer_abort();
                // No response for transfer abort commands.
                return 0;
            },
        }
        let n = resp.len();
        *rbuf = resp.buf;
        n
    }

    fn process_transfer_abort(&mut self)
        requires
            old(self).wf(),
        ensures
            *final(self) == *old(self),
    {
        // A new request is only read once the previous batch has fully
        // completed, so there is never a batch in flight to abort.
    }
}

} // verus!
