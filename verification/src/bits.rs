//! Bit-stream arithmetic shared by the SWD transport and its simulators.
//!
//! A wire is modelled as a `Seq<bool>`, least significant bit first.
//! Reading past the end of a stream yields low bits, matching a line
//! that is held low.

use vstd::prelude::*;

verus! {

/// Two to the power `n` (1 for non-positive `n`).
pub open spec fn pow2i(n: int) -> int
    decreases n,
{
    if n <= 0 {
        1
    } else {
        2 * pow2i(n - 1)
    }
}

/// Bit `i` of the non-negative integer `v`, least significant bit first.
pub open spec fn nth_bit(v: int, i: int) -> bool {
    (v / pow2i(i)) % 2 == 1
}

/// The eight bits of a byte, least significant first.
pub open spec fn byte_bits(b: u8) -> Seq<bool> {
    Seq::new(8, |i: int| nth_bit(b as int, i))
}

/// The 32 bits of a word, least significant first.
pub open spec fn word_bits(w: u32) -> Seq<bool> {
    Seq::new(32, |i: int| nth_bit(w as int, i))
}

/// Bit `i` of a stream; past the end the line reads low.
pub open spec fn stream_bit(s: Seq<bool>, i: int) -> bool {
    if 0 <= i < s.len() {
        s[i]
    } else {
        false
    }
}

/// The stream with its first `n` bits consumed.
pub open spec fn stream_drop(s: Seq<bool>, n: int) -> Seq<bool> {
    if n < 0 {
        s
    } else if n >= s.len() {
        Seq::empty()
    } else {
        s.subrange(n, s.len() as int)
    }
}

/// The value of the first `n` bits of a stream, least significant first.
pub open spec fn stream_val(s: Seq<bool>, n: int) -> int
    decreases n,
{
    if n <= 0 {
        0
    } else {
        stream_val(s, n - 1) + if stream_bit(s, n - 1) {
            pow2i(n - 1)
        } else {
            0int
        }
    }
}

pub proof fn lemma_pow2i_pos(n: int)
    ensures
        pow2i(n) >= 1,
    decreases n,
{
    if n > 0 {
        lemma_pow2i_pos(n - 1);
    }
}

pub proof fn lemma_stream_val_bound(s: Seq<bool>, n: int)
    ensures
        0 <= stream_val(s, n) < pow2i(n),
    decreases n,
{
    if n <= 0 {
    } else {
        lemma_stream_val_bound(s, n - 1);
        lemma_pow2i_pos(n - 1);
    }
}


/// A stream whose first `n` bits are the bits of `v` reads back as
/// `v` modulo two to the `n`.
pub proof fn lemma_stream_val_of_bits(s: Seq<bool>, v: int, n: int)
    requires
        0 <= v,
        n >= 0,
        forall|i: int| 0 <= i < n ==> stream_bit(s, i) == nth_bit(v, i),
    ensures
        stream_val(s, n) == v % pow2i(n),
    decreases n,
{
    if n == 0 {
        assert(pow2i(0) == 1);
    } else {
        lemma_stream_val_of_bits(s, v, n - 1);
        lemma_pow2i_pos(n - 1);
        let y = pow2i(n - 1);
        vstd::arithmetic::div_mod::lemma_mod_breakdown(v, y, 2);
        let b = (v / y) % 2;
        assert(v % (y * 2) == y * b + v % y);
        assert(pow2i(n) == 2 * y);
        assert(y * 2 == 2 * y) by (nonlinear_arith);
        assert(stream_bit(s, n - 1) == nth_bit(v, n - 1));
        assert(stream_val(s, n) == stream_val(s, n - 1) + if stream_bit(s, n - 1) {
            y
        } else {
            0int
        });
        if nth_bit(v, n - 1) {
            assert(b == 1);
            assert(y * b == y) by (nonlinear_arith)
                requires
                    b == 1,
            ;
        } else {
            assert(b == 0);
            assert(y * b == 0) by (nonlinear_arith)
                requires
                    b == 0,
            ;
        }
    }
}

pub proof fn lemma_stream_drop_bit(s: Seq<bool>, n: int, k: int)
    requires
        n >= 0,
        k >= 0,
    ensures
        stream_bit(stream_drop(s, n), k) == stream_bit(s, n + k),
{
}

pub proof fn lemma_stream_drop_drop(s: Seq<bool>, a: int, b: int)
    requires
        a >= 0,
        b >= 0,
    ensures
        stream_drop(stream_drop(s, a), b) == stream_drop(s, a + b),
{
    assert(stream_drop(stream_drop(s, a), b) =~= stream_drop(s, a + b));
}

} // verus!
