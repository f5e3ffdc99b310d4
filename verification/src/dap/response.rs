//! An outgoing response packet built incrementally.
//!
//! The writer owns a fixed-size buffer whose first byte echoes the
//! command, and a cursor.  Handlers may reserve bytes and patch them
//! later.  Writes beyond the buffer are dropped and the cursor stops
//! at the end: a handler can never write past the negotiated packet
//! size.

use vstd::prelude::*;

use vstd::pervasive::VecAdditionalExecFns;

verus! {

/// One step of the writer on its model `(buffer, cursor)`.
pub open spec fn spec_push(buf: Seq<u8>, idx: int, v: u8) -> (Seq<u8>, int) {
    if idx < buf.len() {
        (buf.update(idx, v), idx + 1)
    } else {
        (buf, idx)
    }
}

/// Four pushes, little endian.
pub open spec fn spec_push_u32(buf: Seq<u8>, idx: int, v: u32) -> (Seq<u8>, int) {
    let b0 = (v as int % 0x100) as u8;
    let b1 = (v as int / 0x100 % 0x100) as u8;
    let b2 = (v as int / 0x1_0000 % 0x100) as u8;
    let b3 = (v as int / 0x100_0000 % 0x100) as u8;
    let s0 = spec_push(buf, idx, b0);
    let s1 = spec_push(s0.0, s0.1, b1);
    let s2 = spec_push(s1.0, s1.1, b2);
    spec_push(s2.0, s2.1, b3)
}

/// A response buffer under construction.
pub struct ResponseWriter {
    pub buf: Vec<u8>,
    pub idx: usize,
}

impl ResponseWriter {
    /// The cursor stays within the buffer.
    pub open spec fn wf(&self) -> bool {
        self.idx <= self.buf@.len()
    }

    /// A fresh zeroed buffer of the packet size, with the command byte
    /// echoed first.
    pub fn new(command_byte: u8, capacity: usize) -> (r: ResponseWriter)
        requires
            capacity >= 1,
        ensures
            r.wf(),
            r.buf@.len() == capacity,
            r.buf@[0] == command_byte,
            forall|i: int| 1 <= i < capacity ==> r.buf@[i] == 0u8,
            r.idx == 1,
    {
        let mut buf: Vec<u8> = vec![0u8; capacity];
        buf.set(0, command_byte);
        ResponseWriter { buf, idx: 1 }
    }

    /// Append one byte; beyond the buffer the byte is dropped.
    pub fn write_u8(&mut self, v: u8)
        requires
            old(self).wf(),
        ensures
            final(self).wf(),
            final(self).buf@.len() == old(self).buf@.len(),
            (final(self).buf@, final(self).idx as int) == spec_push(
                old(self).buf@,
                old(self).idx as int,
                v,
            ),
    {
        if self.idx < self.buf.len() {
            self.buf.set(self.idx, v);
            self.idx = self.idx + 1;
        }
    }

    /// Append a little-endian 16-bit value.
    pub fn write_u16(&mut self, v: u16)
        requires
            old(self).wf(),
        ensures
            final(self).wf(),
            final(self).buf@.len() == old(self).buf@.len(),
            (final(self).buf@, final(self).idx as int) == ({
                let s0 = spec_push(old(self).buf@, old(self).idx as int, (v as int % 0x100) as u8);
                spec_push(s0.0, s0.1, (v as int / 0x100) as u8)
            }),
    {
        self.write_u8((v % 0x100) as u8);
        self.write_u8((v / 0x100) as u8);
    }

    /// Append a little-endian 32-bit value.
    pub fn write_u32(&mut self, v: u32)
        requires
            old(self).wf(),
        ensures
            final(self).wf(),
            final(self).buf@.len() == old(self).buf@.len(),
            (final(self).buf@, final(self).idx as int) == spec_push_u32(
                old(self).buf@,
                old(self).idx as int,
                v,
            ),
    {
        self.write_u8((v % 0x100) as u8);
        self.write_u8((v / 0x100 % 0x100) as u8);
        self.write_u8((v / 0x1_0000 % 0x100) as u8);
        self.write_u8((v / 0x100_0000 % 0x100) as u8);
    }

    /// Append a byte slice.
    pub fn write_slice(&mut self, data: &[u8])
        requires
            old(self).wf(),
        ensures
            final(self).wf(),
            final(self).buf@.len() == old(self).buf@.len(),
            old(self).idx + data@.len() <= old(self).buf@.len() ==> {
                &&& final(self).idx == old(self).idx + data@.len()
                &&& final(self).buf@ == old(self).buf@.subrange(0, old(self).idx as int) + data@
                    + old(self).buf@.skip(old(self).idx as int + data@.len() as int)
            },
            final(self).idx >= old(self).idx,
            forall|j: int|
                0 <= j < old(self).idx ==> final(self).buf@[j] == old(self).buf@[j],
    {
        let ghost buf0 = old(self).buf@;
        let ghost idx0 = old(self).idx as int;
        let mut i: usize = 0;
        while i < data.len()
            invariant
                buf0 == old(self).buf@,
                idx0 == old(self).idx as int,
                idx0 <= buf0.len(),
                i <= data@.len(),
                self.wf(),
                self.buf@.len() == buf0.len(),
                idx0 + i <= buf0.len() ==> {
                    &&& self.idx == idx0 + i
                    &&& self.buf@ == buf0.subrange(0, idx0) + data@.subrange(0, i as int)
                        + buf0.skip(idx0 + i)
                },
                self.idx >= idx0,
                forall|j: int| 0 <= j < idx0 ==> self.buf@[j] == buf0[j],
            decreases data@.len() - i,
        {
            let ghost pre = self.buf@;
            let ghost preidx = self.idx as int;
            self.write_u8(data[i]);
            proof {
                if idx0 + i + 1 <= buf0.len() {
                    assert(self.buf@ =~= buf0.subrange(0, idx0) + data@.subrange(0, i as int + 1)
                        + buf0.skip(idx0 + i + 1));
                }
            }
            i = i + 1;
        }
        proof {
            if idx0 + data@.len() <= buf0.len() {
                assert(data@.subrange(0, data@.len() as int) =~= data@);
            }
        }
    }

    /// Patch one byte at an absolute position; out-of-range patches
    /// are dropped.  The cursor does not move.
    pub fn write_u8_at(&mut self, at: usize, v: u8)
        requires
            old(self).wf(),
        ensures
            final(self).wf(),
            final(self).idx == old(self).idx,
            final(self).buf@ == if at < old(self).buf@.len() {
                old(self).buf@.update(at as int, v)
            } else {
                old(self).buf@
            },
    {
        if at < self.buf.len() {
            self.buf.set(at, v);
        }
    }

    /// Patch a little-endian 16-bit value at an absolute position.
    pub fn write_u16_at(&mut self, at: usize, v: u16)
        requires
            old(self).wf(),
            at + 1 < old(self).buf@.len(),
        ensures
            final(self).wf(),
            final(self).idx == old(self).idx,
            final(self).buf@ == old(self).buf@.update(at as int, (v as int % 0x100) as u8).update(
                at as int + 1,
                (v as int / 0x100) as u8,
            ),
    {
        let n = self.buf.len();
        self.write_u8_at(at, (v % 0x100) as u8);
        self.write_u8_at(at + 1, (v / 0x100) as u8);
    }

    /// Read back a byte written earlier; out of range reads zero.
    pub fn read_u8_at(&self, at: usize) -> (r: u8)
        ensures
            r == if at < self.buf@.len() {
                self.buf@[at as int]
            } else {
                0u8
            },
    {
        if at < self.buf.len() {
            self.buf[at]
        } else {
            0
        }
    }

    /// How many bytes of the buffer are in use.
    pub fn len(&self) -> (r: usize)
        ensures
            r == self.idx,
    {
        self.idx
    }
}

} // verus!
