//! Cursor that consumes a byte slice left to right.  Every read is
//! all-or-nothing: when fewer bytes remain than the primitive needs, the
//! read returns `None` and the cursor is left exactly where it was.
//! Multi-byte integers are little-endian; this module is the only place
//! where that byte layout is defined.

use vstd::prelude::*;
use vstd::slice::{slice_subrange, slice_to_vec};
use vstd::utf8::{decode_utf8, encode_utf8, valid_utf8};

verus! {

/// Relies on String::from_utf8: it returns `Ok` exactly when the bytes are
/// valid UTF-8, and the resulting string then decodes from (and encodes
/// back to) exactly the input bytes.
#[verifier::external_body]
fn string_from_utf8(bytes: Vec<u8>) -> (r: Option<String>)
    ensures
        r is Some <==> valid_utf8(bytes@),
        r matches Some(s) ==> s@ == decode_utf8(bytes@) && encode_utf8(s@) == bytes@,
{
    String::from_utf8(bytes).ok()
}

/// Value of two little-endian bytes.
pub open spec fn u16_le(b0: u8, b1: u8) -> u16 {
    (b0 + 0x100 * b1) as u16
}

/// Value of four little-endian bytes.
pub open spec fn u32_le(b0: u8, b1: u8, b2: u8, b3: u8) -> u32 {
    (b0 + 0x100 * b1 + 0x1_0000 * b2 + 0x100_0000 * b3) as u32
}

/// Value of eight little-endian bytes.
pub open spec fn u64_le(b0: u8, b1: u8, b2: u8, b3: u8, b4: u8, b5: u8, b6: u8, b7: u8) -> u64 {
    (b0 + 0x100 * b1 + 0x1_0000 * b2 + 0x100_0000 * b3 + 0x1_0000_0000 * b4 + 0x100_0000_0000 * b5
        + 0x1_0000_0000_0000 * b6 + 0x100_0000_0000_0000 * b7) as u64
}

/// Two's-complement reinterpretation of an unsigned byte.
pub open spec fn i8_from_u8(u: u8) -> i8 {
    if u < 0x80 {
        u as i8
    } else {
        (u - 0x100) as i8
    }
}

/// Two's-complement reinterpretation of an unsigned 16-bit value.
pub open spec fn i16_from_u16(u: u16) -> i16 {
    if u < 0x8000 {
        u as i16
    } else {
        (u - 0x1_0000) as i16
    }
}

/// Two's-complement reinterpretation of an unsigned 32-bit value.
pub open spec fn i32_from_u32(u: u32) -> i32 {
    if u < 0x8000_0000 {
        u as i32
    } else {
        (u - 0x1_0000_0000) as i32
    }
}

/// Two's-complement reinterpretation of an unsigned 64-bit value.
pub open spec fn i64_from_u64(u: u64) -> i64 {
    if u < 0x8000_0000_0000_0000 {
        u as i64
    } else {
        (u - 0x1_0000_0000_0000_0000) as i64
    }
}

pub struct BufferReader<'a> {
    buffer: &'a [u8],
    read_pos: usize,
}

impl<'a> BufferReader<'a> {
    /// The whole underlying byte sequence (not just the unread part).
    pub closed spec fn bytes(&self) -> Seq<u8> {
        self.buffer@
    }

    /// The cursor position.
    pub closed spec fn pos(&self) -> int {
        self.read_pos as int
    }

    /// The cursor never runs past the end of the buffer.
    pub open spec fn wf(&self) -> bool {
        0 <= self.pos() <= self.bytes().len()
    }

    /// `n` more bytes can be consumed from the current position.
    pub open spec fn can_read(&self, n: int) -> bool {
        self.pos() + n <= self.bytes().len()
    }

    pub fn new(buffer: &'a [u8]) -> (r: Self)
        ensures
            r.bytes() == buffer@,
            r.pos() == 0,
            r.wf(),
    {
        Self { buffer, read_pos: 0 }
    }

    pub fn get_read_pos(&self) -> (r: usize)
        ensures
            r == self.pos(),
    {
        self.read_pos
    }

    /// Number of bytes not yet consumed.
    pub fn remaining(&self) -> (r: usize)
        requires
            self.wf(),
        ensures
            r == self.bytes().len() - self.pos(),
    {
        self.buffer.len() - self.read_pos
    }

    pub fn read_bytes(&mut self, length: usize) -> (r: Option<&'a [u8]>)
        requires
            old(self).wf(),
        ensures
            final(self).bytes() == old(self).bytes(),
            final(self).wf(),
            old(self).can_read(length as int) ==> (final(self).pos() == old(self).pos()
                + length && (r matches Some(s) && s@ == old(self).bytes().subrange(
                old(self).pos(),
                old(self).pos() + length,
            ))),
            !old(self).can_read(length as int) ==> (r is None && final(self).pos() == old(self).pos()),
    {
        if length <= self.buffer.len() - self.read_pos {
            let s = slice_subrange(self.buffer, self.read_pos, self.read_pos + length);
            self.read_pos = self.read_pos + length;
            Some(s)
        } else {
            None
        }
    }

    /// Reads exactly `N` bytes into an owned buffer.
    pub fn const_read_bytes<const N: usize>(&mut self) -> (r: Option<Vec<u8>>)
        requires
            old(self).wf(),
        ensures
            final(self).bytes() == old(self).bytes(),
            final(self).wf(),
            old(self).can_read(N as int) ==> (final(self).pos() == old(self).pos() + N && (
            r matches Some(v) && v@ == old(self).bytes().subrange(
                old(self).pos(),
                old(self).pos() + N,
            ))),
            !old(self).can_read(N as int) ==> (r is None && final(self).pos() == old(self).pos()),
    {
        match self.read_bytes(N) {
            Some(s) => Some(slice_to_vec(s)),
            None => None,
        }
    }

    pub fn read_u8(&mut self) -> (r: Option<u8>)
        requires
            old(self).wf(),
        ensures
            final(self).bytes() == old(self).bytes(),
            final(self).wf(),
            old(self).can_read(1) ==> (final(self).pos() == old(self).pos() + 1 && r == Some(
                old(self).bytes()[old(self).pos()],
            )),
            !old(self).can_read(1) ==> (r is None && final(self).pos() == old(self).pos()),
    {
        match self.read_bytes(1) {
            Some(s) => Some(s[0]),
            None => None,
        }
    }

    pub fn read_u16(&mut self) -> (r: Option<u16>)
        requires
            old(self).wf(),
        ensures
            final(self).bytes() == old(self).bytes(),
            final(self).wf(),
            old(self).can_read(2) ==> (final(self).pos() == old(self).pos() + 2 && r == Some(
                u16_le(old(self).bytes()[old(self).pos()], old(self).bytes()[old(self).pos() + 1]),
            )),
            !old(self).can_read(2) ==> (r is None && final(self).pos() == old(self).pos()),
    {
        match self.read_bytes(2) {
            Some(s) => Some(s[0] as u16 + 0x100 * (s[1] as u16)),
            None => None,
        }
    }

    pub fn read_u32(&mut self) -> (r: Option<u32>)
        requires
            old(self).wf(),
        ensures
            final(self).bytes() == old(self).bytes(),
            final(self).wf(),
            old(self).can_read(4) ==> (final(self).pos() == old(self).pos() + 4 && r == Some(
                u32_le(
                    old(self).bytes()[old(self).pos()],
                    old(self).bytes()[old(self).pos() + 1],
                    old(self).bytes()[old(self).pos() + 2],
                    old(self).bytes()[old(self).pos() + 3],
                ),
            )),
            !old(self).can_read(4) ==> (r is None && final(self).pos() == old(self).pos()),
    {
        match self.read_bytes(4) {
            Some(s) => Some(
                s[0] as u32 + 0x100 * (s[1] as u32) + 0x1_0000 * (s[2] as u32) + 0x100_0000 * (
                s[3] as u32),
            ),
            None => None,
        }
    }

    pub fn read_u64(&mut self) -> (r: Option<u64>)
        requires
            old(self).wf(),
        ensures
            final(self).bytes() == old(self).bytes(),
            final(self).wf(),
            old(self).can_read(8) ==> (final(self).pos() == old(self).pos() + 8 && r == Some(
                u64_le(
                    old(self).bytes()[old(self).pos()],
                    old(self).bytes()[old(self).pos() + 1],
                    old(self).bytes()[old(self).pos() + 2],
                    old(self).bytes()[old(self).pos() + 3],
                    old(self).bytes()[old(self).pos() + 4],
                    old(self).bytes()[old(self).pos() + 5],
                    old(self).bytes()[old(self).pos() + 6],
                    old(self).bytes()[old(self).pos() + 7],
                ),
            )),
            !old(self).can_read(8) ==> (r is None && final(self).pos() == old(self).pos()),
    {
        match self.read_bytes(8) {
            Some(s) => Some(
                s[0] as u64 + 0x100 * (s[1] as u64) + 0x1_0000 * (s[2] as u64) + 0x100_0000 * (
                s[3] as u64) + 0x1_0000_0000 * (s[4] as u64) + 0x100_0000_0000 * (s[5] as u64)
                    + 0x1_0000_0000_0000 * (s[6] as u64) + 0x100_0000_0000_0000 * (s[7] as u64),
            ),
            None => None,
        }
    }

    pub fn read_i8(&mut self) -> (r: Option<i8>)
        requires
            old(self).wf(),
        ensures
            final(self).bytes() == old(self).bytes(),
            final(self).wf(),
            old(self).can_read(1) ==> (final(self).pos() == old(self).pos() + 1 && r == Some(
                i8_from_u8(old(self).bytes()[old(self).pos()]),
            )),
            !old(self).can_read(1) ==> (r is None && final(self).pos() == old(self).pos()),
    {
        match self.read_u8() {
            Some(u) => {
                if u < 0x80 {
                    Some(u as i8)
                } else {
                    Some(-((0xffu8 - u) as i8) - 1)
                }
            },
            None => None,
        }
    }

    pub fn read_i16(&mut self) -> (r: Option<i16>)
        requires
            old(self).wf(),
        ensures
            final(self).bytes() == old(self).bytes(),
            final(self).wf(),
            old(self).can_read(2) ==> (final(self).pos() == old(self).pos() + 2 && r == Some(
                i16_from_u16(
                    u16_le(
                        old(self).bytes()[old(self).pos()],
                        old(self).bytes()[old(self).pos() + 1],
                    ),
                ),
            )),
            !old(self).can_read(2) ==> (r is None && final(self).pos() == old(self).pos()),
    {
        match self.read_u16() {
            Some(u) => {
                if u < 0x8000 {
                    Some(u as i16)
                } else {
                    Some(-((0xffffu16 - u) as i16) - 1)
                }
            },
            None => None,
        }
    }

    pub fn read_i32(&mut self) -> (r: Option<i32>)
        requires
            old(self).wf(),
        ensures
            final(self).bytes() == old(self).bytes(),
            final(self).wf(),
            old(self).can_read(4) ==> (final(self).pos() == old(self).pos() + 4 && r == Some(
                i32_from_u32(
                    u32_le(
                        old(self).bytes()[old(self).pos()],
                        old(self).bytes()[old(self).pos() + 1],
                        old(self).bytes()[old(self).pos() + 2],
                        old(self).bytes()[old(self).pos() + 3],
                    ),
                ),
            )),
            !old(self).can_read(4) ==> (r is None && final(self).pos() == old(self).pos()),
    {
        match self.read_u32() {
            Some(u) => {
                if u < 0x8000_0000 {
                    Some(u as i32)
                } else {
                    Some(-((0xffff_ffffu32 - u) as i32) - 1)
                }
            },
            None => None,
        }
    }

    pub fn read_i64(&mut self) -> (r: Option<i64>)
        requires
            old(self).wf(),
        ensures
            final(self).bytes() == old(self).bytes(),
            final(self).wf(),
            old(self).can_read(8) ==> (final(self).pos() == old(self).pos() + 8 && r == Some(
                i64_from_u64(
                    u64_le(
                        old(self).bytes()[old(self).pos()],
                        old(self).bytes()[old(self).pos() + 1],
                        old(self).bytes()[old(self).pos() + 2],
                        old(self).bytes()[old(self).pos() + 3],
                        old(self).bytes()[old(self).pos() + 4],
                        old(self).bytes()[old(self).pos() + 5],
                        old(self).bytes()[old(self).pos() + 6],
                        old(self).bytes()[old(self).pos() + 7],
                    ),
                ),
            )),
            !old(self).can_read(8) ==> (r is None && final(self).pos() == old(self).pos()),
    {
        match self.read_u64() {
            Some(u) => {
                if u < 0x8000_0000_0000_0000 {
                    Some(u as i64)
                } else {
                    Some(-((0xffff_ffff_ffff_ffffu64 - u) as i64) - 1)
                }
            },
            None => None,
        }
    }

    /// A string is a 32-bit little-endian byte count followed by that many
    /// bytes of UTF-8.  Fails, leaving the cursor in place, when the prefix
    /// or the payload is truncated or the payload is not valid UTF-8.
    pub fn read_string(&mut self) -> (r: Option<String>)
        requires
            old(self).wf(),
        ensures
            final(self).bytes() == old(self).bytes(),
            final(self).wf(),
            ({
                let p = old(self).pos();
                let b = old(self).bytes();
                let len = u32_le(b[p], b[p + 1], b[p + 2], b[p + 3]) as int;
                if old(self).can_read(4) && old(self).can_read(4 + len) && valid_utf8(
                    b.subrange(p + 4, p + 4 + len),
                ) {
                    final(self).pos() == p + 4 + len && (r matches Some(s) && s@ == decode_utf8(
                        b.subrange(p + 4, p + 4 + len),
                    ))
                } else {
                    r is None && final(self).pos() == old(self).pos()
                }
            }),
    {
        let start = self.read_pos;
        let length = match self.read_u32() {
            Some(length) => length,
            None => {
                return None;
            },
        };
        let data = match self.read_bytes(length as usize) {
            Some(data) => data,
            None => {
                self.read_pos = start;
                return None;
            },
        };
        match string_from_utf8(slice_to_vec(data)) {
            Some(s) => Some(s),
            None => {
                self.read_pos = start;
                None
            },
        }
    }

    /// A single byte; any non-zero value counts as `true`.
    pub fn read_bool(&mut self) -> (r: Option<bool>)
        requires
            old(self).wf(),
        ensures
            final(self).bytes() == old(self).bytes(),
            final(self).wf(),
            old(self).can_read(1) ==> (final(self).pos() == old(self).pos() + 1 && r == Some(
                old(self).bytes()[old(self).pos()] != 0,
            )),
            !old(self).can_read(1) ==> (r is None && final(self).pos() == old(self).pos()),
    {
        match self.read_u8() {
            Some(u) => Some(u != 0),
            None => None,
        }
    }
}

} // verus!
