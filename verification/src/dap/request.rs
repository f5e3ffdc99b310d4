//! An incoming request packet with a read cursor.
//!
//! Handlers pull little-endian fields off the payload one at a time.
//! Reading past the end of a short request yields zero bytes; the
//! cursor never leaves the payload.

use vstd::prelude::*;

use super::command::{spec_command_of, Command};

verus! {

/// Byte `i` of a payload; missing bytes read as zero.
pub open spec fn byte_at(s: Seq<u8>, i: int) -> int {
    if 0 <= i < s.len() {
        s[i] as int
    } else {
        0
    }
}

/// The little-endian 16-bit value at offset `i`.
pub open spec fn u16_at(s: Seq<u8>, i: int) -> int {
    byte_at(s, i) + 0x100 * byte_at(s, i + 1)
}

/// The little-endian 32-bit value at offset `i`.
pub open spec fn u32_at(s: Seq<u8>, i: int) -> int {
    byte_at(s, i) + 0x100 * byte_at(s, i + 1) + 0x1_0000 * byte_at(s, i + 2) + 0x100_0000 * byte_at(
        s,
        i + 3,
    )
}

/// The cursor position after reading `n` bytes from position `i`.
pub open spec fn cursor_after(s: Seq<u8>, i: int, n: int) -> int {
    if i + n <= s.len() {
        i + n
    } else {
        s.len() as int
    }
}

/// A decoded request: the command and its payload, with a read cursor.
pub struct Request {
    pub command: Command,
    pub data: Vec<u8>,
    pub idx: usize,
}

impl Request {
    /// The cursor stays within the payload.
    pub open spec fn wf(&self) -> bool {
        self.idx <= self.data@.len()
    }

    /// Split a report into command and payload.  Empty reports and
    /// command bytes this probe does not serve yield nothing, and the
    /// whole report is dropped.
    pub fn from_report(report: &[u8]) -> (r: Option<Request>)
        ensures
            r is Some <==> report@.len() > 0 && spec_command_of(report@[0]) is Some,
            r matches Some(req) ==> {
                &&& Some(req.command) == spec_command_of(report@[0])
                &&& req.data@ == report@.skip(1)
                &&& req.idx == 0
                &&& req.wf()
            },
    {
        if report.len() == 0 {
            return None;
        }
        let command = match Command::try_from_u8(report[0]) {
            Some(c) => c,
            None => {
                return None;
            },
        };
        let mut data: Vec<u8> = Vec::new();
        let mut i: usize = 1;
        while i < report.len()
            invariant
                1 <= i <= report@.len(),
                data@ == report@.subrange(1, i as int),
            decreases report@.len() - i,
        {
            data.push(report[i]);
            proof {
                assert(data@ =~= report@.subrange(1, i as int + 1));
            }
            i = i + 1;
        }
        proof {
            assert(data@ =~= report@.skip(1));
        }
        Some(Request { command, data, idx: 0 })
    }

    /// Read the next payload byte; a missing byte reads as zero.
    pub fn next_u8(&mut self) -> (r: u8)
        requires
            old(self).wf(),
        ensures
            final(self).wf(),
            r as int == byte_at(old(self).data@, old(self).idx as int),
            final(self).idx as int == cursor_after(old(self).data@, old(self).idx as int, 1),
            final(self).data == old(self).data,
            final(self).command == old(self).command,
    {
        if self.idx < self.data.len() {
            let v = self.data[self.idx];
            self.idx = self.idx + 1;
            v
        } else {
            0
        }
    }

    /// Read the next little-endian 16-bit field.
    pub fn next_u16(&mut self) -> (r: u16)
        requires
            old(self).wf(),
        ensures
            final(self).wf(),
            r as int == u16_at(old(self).data@, old(self).idx as int),
            final(self).idx as int == cursor_after(old(self).data@, old(self).idx as int, 2),
            final(self).data == old(self).data,
            final(self).command == old(self).command,
    {
        let lo = self.next_u8();
        let hi = self.next_u8();
        lo as u16 + 0x100 * hi as u16
    }

    /// Read the next little-endian 32-bit field.
    pub fn next_u32(&mut self) -> (r: u32)
        requires
            old(self).wf(),
        ensures
            final(self).wf(),
            r as int == u32_at(old(self).data@, old(self).idx as int),
            final(self).idx as int == cursor_after(old(self).data@, old(self).idx as int, 4),
            final(self).data == old(self).data,
            final(self).command == old(self).command,
    {
        let b0 = self.next_u8();
        let b1 = self.next_u8();
        let b2 = self.next_u8();
        let b3 = self.next_u8();
        b0 as u32 + 0x100 * b1 as u32 + 0x1_0000 * b2 as u32 + 0x100_0000 * b3 as u32
    }

    /// How many payload bytes are left after the cursor.
    pub fn rest_len(&self) -> (r: usize)
        requires
            self.wf(),
        ensures
            r == self.data@.len() - self.idx,
    {
        self.data.len() - self.idx
    }
}

} // verus!
