//! Appends primitives to a growable byte buffer, little-endian, mirroring
//! the layouts that `buffer_reader` consumes.

use vstd::prelude::*;
use crate::utils::buffer_reader::{
    i8_from_u8, i16_from_u16, i32_from_u32, i64_from_u64, u16_le, u32_le, u64_le,
};
use vstd::utf8::encode_utf8;

verus! {

/// The two little-endian bytes of a 16-bit value.
pub open spec fn u16_le_bytes(x: u16) -> Seq<u8> {
    seq![(x % 0x100) as u8, ((x / 0x100) % 0x100) as u8]
}

/// The four little-endian bytes of a 32-bit value.
pub open spec fn u32_le_bytes(x: u32) -> Seq<u8> {
    seq![
        (x % 0x100) as u8,
        ((x / 0x100) % 0x100) as u8,
        ((x / 0x1_0000) % 0x100) as u8,
        ((x / 0x100_0000) % 0x100) as u8,
    ]
}

/// The eight little-endian bytes of a 64-bit value.
pub open spec fn u64_le_bytes(x: u64) -> Seq<u8> {
    seq![
        (x % 0x100) as u8,
        ((x / 0x100) % 0x100) as u8,
        ((x / 0x1_0000) % 0x100) as u8,
        ((x / 0x100_0000) % 0x100) as u8,
        ((x / 0x1_0000_0000) % 0x100) as u8,
        ((x / 0x100_0000_0000) % 0x100) as u8,
        ((x / 0x1_0000_0000_0000) % 0x100) as u8,
        ((x / 0x100_0000_0000_0000) % 0x100) as u8,
    ]
}

/// Two's-complement unsigned image of a signed byte.
pub open spec fn u8_of_i8(x: i8) -> u8 {
    if x >= 0 {
        x as u8
    } else {
        (x + 0x100) as u8
    }
}

/// Two's-complement unsigned image of a signed 16-bit value.
pub open spec fn u16_of_i16(x: i16) -> u16 {
    if x >= 0 {
        x as u16
    } else {
        (x + 0x1_0000) as u16
    }
}

/// Two's-complement unsigned image of a signed 32-bit value.
pub open spec fn u32_of_i32(x: i32) -> u32 {
    if x >= 0 {
        x as u32
    } else {
        (x + 0x1_0000_0000) as u32
    }
}

/// Two's-complement unsigned image of a signed 64-bit value.
pub open spec fn u64_of_i64(x: i64) -> u64 {
    if x >= 0 {
        x as u64
    } else {
        (x + 0x1_0000_0000_0000_0000) as u64
    }
}

/// Reading back the two little-endian bytes of `x` gives `x` again.
pub proof fn lemma_u16_le_round_trip(x: u16)
    ensures
        u16_le(u16_le_bytes(x)[0], u16_le_bytes(x)[1]) == x,
{
}

/// Reading back the four little-endian bytes of `x` gives `x` again.
pub proof fn lemma_u32_le_round_trip(x: u32)
    ensures
        u32_le(u32_le_bytes(x)[0], u32_le_bytes(x)[1], u32_le_bytes(x)[2], u32_le_bytes(x)[3])
            == x,
{
    let x1 = x / 0x100;
    let x2 = x1 / 0x100;
    let x3 = x2 / 0x100;
    assert(x2 == x / 0x1_0000) by (nonlinear_arith)
        requires
            x1 == x / 0x100 && x2 == x1 / 0x100,
    ;
    assert(x3 == x / 0x100_0000) by (nonlinear_arith)
        requires
            x2 == x / 0x1_0000 && x3 == x2 / 0x100,
    ;
    assert(x == x % 0x100 + 0x100 * (x1 % 0x100) + 0x1_0000 * (x2 % 0x100) + 0x100_0000 * (x3
        % 0x100));
}

/// Reading back the eight little-endian bytes of `x` gives `x` again.
pub proof fn lemma_u64_le_round_trip(x: u64)
    ensures
        u64_le(
            u64_le_bytes(x)[0],
            u64_le_bytes(x)[1],
            u64_le_bytes(x)[2],
            u64_le_bytes(x)[3],
            u64_le_bytes(x)[4],
            u64_le_bytes(x)[5],
            u64_le_bytes(x)[6],
            u64_le_bytes(x)[7],
        ) == x,
{
    let x1 = x / 0x100;
    let x2 = x1 / 0x100;
    let x3 = x2 / 0x100;
    let x4 = x3 / 0x100;
    let x5 = x4 / 0x100;
    let x6 = x5 / 0x100;
    let x7 = x6 / 0x100;
    assert(x2 == x / 0x1_0000) by (nonlinear_arith)
        requires
            x1 == x / 0x100 && x2 == x1 / 0x100,
    ;
    assert(x3 == x / 0x100_0000) by (nonlinear_arith)
        requires
            x2 == x / 0x1_0000 && x3 == x2 / 0x100,
    ;
    assert(x4 == x / 0x1_0000_0000) by (nonlinear_arith)
        requires
            x3 == x / 0x100_0000 && x4 == x3 / 0x100,
    ;
    assert(x5 == x / 0x100_0000_0000) by (nonlinear_arith)
        requires
            x4 == x / 0x1_0000_0000 && x5 == x4 / 0x100,
    ;
    assert(x6 == x / 0x1_0000_0000_0000) by (nonlinear_arith)
        requires
            x5 == x / 0x100_0000_0000 && x6 == x5 / 0x100,
    ;
    assert(x7 == x / 0x100_0000_0000_0000) by (nonlinear_arith)
        requires
            x6 == x / 0x1_0000_0000_0000 && x7 == x6 / 0x100,
    ;
    assert(x == x % 0x100 + 0x100 * (x1 % 0x100) + 0x1_0000 * (x2 % 0x100) + 0x100_0000 * (x3
        % 0x100) + 0x1_0000_0000 * (x4 % 0x100) + 0x100_0000_0000 * (x5 % 0x100)
        + 0x1_0000_0000_0000 * (x6 % 0x100) + 0x100_0000_0000_0000 * (x7 % 0x100));
}

/// Two's-complement encoding of a signed byte round-trips.
pub proof fn lemma_i8_round_trip(x: i8)
    ensures
        i8_from_u8(u8_of_i8(x)) == x,
{
}

/// Two's-complement encoding of a signed 16-bit value round-trips.
pub proof fn lemma_i16_round_trip(x: i16)
    ensures
        i16_from_u16(u16_of_i16(x)) == x,
{
}

/// Two's-complement encoding of a signed 32-bit value round-trips.
pub proof fn lemma_i32_round_trip(x: i32)
    ensures
        i32_from_u32(u32_of_i32(x)) == x,
{
}

/// Two's-complement encoding of a signed 64-bit value round-trips.
pub proof fn lemma_i64_round_trip(x: i64)
    ensures
        i64_from_u64(u64_of_i64(x)) == x,
{
}

pub struct BufferWriter {
    buffer: Vec<u8>,
}

impl BufferWriter {
    /// The bytes written so far (including what the wrapped buffer held).
    pub closed spec fn bytes(&self) -> Seq<u8> {
        self.buffer@
    }

    pub fn new(buffer: Vec<u8>) -> (r: Self)
        ensures
            r.bytes() == buffer@,
    {
        Self { buffer }
    }

    /// Hands the accumulated buffer back.
    pub fn into_vec(self) -> (r: Vec<u8>)
        ensures
            r@ == self.bytes(),
    {
        self.buffer
    }

    pub fn write_bytes(&mut self, data: &[u8])
        ensures
            final(self).bytes() == old(self).bytes() + data@,
    {
        self.buffer.extend_from_slice(data);
    }

    pub fn write_u8(&mut self, data: u8)
        ensures
            final(self).bytes() == old(self).bytes() + seq![data],
    {
        self.buffer.push(data);
        assert(final(self).bytes() =~= old(self).bytes() + seq![data]);
    }

    pub fn write_u16(&mut self, data: u16)
        ensures
            final(self).bytes() == old(self).bytes() + u16_le_bytes(data),
    {
        self.buffer.push((data % 0x100) as u8);
        self.buffer.push((data / 0x100) as u8);
        assert(final(self).bytes() =~= old(self).bytes() + u16_le_bytes(data));
    }

    pub fn write_u32(&mut self, data: u32)
        ensures
            final(self).bytes() == old(self).bytes() + u32_le_bytes(data),
    {
        self.buffer.push((data % 0x100) as u8);
        self.buffer.push((data / 0x100 % 0x100) as u8);
        self.buffer.push((data / 0x1_0000 % 0x100) as u8);
        self.buffer.push((data / 0x100_0000) as u8);
        assert(final(self).bytes() =~= old(self).bytes() + u32_le_bytes(data));
    }

    pub fn write_u64(&mut self, data: u64)
        ensures
            final(self).bytes() == old(self).bytes() + u64_le_bytes(data),
    {
        self.buffer.push((data % 0x100) as u8);
        self.buffer.push((data / 0x100 % 0x100) as u8);
        self.buffer.push((data / 0x1_0000 % 0x100) as u8);
        self.buffer.push((data / 0x100_0000 % 0x100) as u8);
        self.buffer.push((data / 0x1_0000_0000 % 0x100) as u8);
        self.buffer.push((data / 0x100_0000_0000 % 0x100) as u8);
        self.buffer.push((data / 0x1_0000_0000_0000 % 0x100) as u8);
        self.buffer.push((data / 0x100_0000_0000_0000) as u8);
        assert(final(self).bytes() =~= old(self).bytes() + u64_le_bytes(data));
    }

    pub fn write_i8(&mut self, data: i8)
        ensures
            final(self).bytes() == old(self).bytes() + seq![u8_of_i8(data)],
    {
        let u: u8 = if data >= 0 {
            data as u8
        } else {
            0xff - ((-(data + 1)) as u8)
        };
        self.write_u8(u);
    }

    pub fn write_i16(&mut self, data: i16)
        ensures
            final(self).bytes() == old(self).bytes() + u16_le_bytes(u16_of_i16(data)),
    {
        let u: u16 = if data >= 0 {
            data as u16
        } else {
            0xffff - ((-(data + 1)) as u16)
        };
        self.write_u16(u);
    }

    pub fn write_i32(&mut self, data: i32)
        ensures
            final(self).bytes() == old(self).bytes() + u32_le_bytes(u32_of_i32(data)),
    {
        let u: u32 = if data >= 0 {
            data as u32
        } else {
            0xffff_ffff - ((-(data + 1)) as u32)
        };
        self.write_u32(u);
    }

    pub fn write_i64(&mut self, data: i64)
        ensures
            final(self).bytes() == old(self).bytes() + u64_le_bytes(u64_of_i64(data)),
    {
        let u: u64 = if data >= 0 {
            data as u64
        } else {
            0xffff_ffff_ffff_ffff - ((-(data + 1)) as u64)
        };
        self.write_u64(u);
    }

    /// A string is written as a 32-bit little-endian count of its UTF-8
    /// bytes followed by those bytes; the count must fit in 32 bits.
    pub fn write_string(&mut self, string: String)
        requires
            encode_utf8(string@).len() <= u32::MAX,
        ensures
            final(self).bytes() == old(self).bytes() + u32_le_bytes(
                encode_utf8(string@).len() as u32,
            ) + encode_utf8(string@),
    {
        let str_byte = string.as_str().as_bytes();
        self.write_u32(str_byte.len() as u32);
        self.write_bytes(str_byte);
    }

    /// `true` is written as 1, `false` as 0.
    pub fn write_bool(&mut self, data: bool)
        ensures
            final(self).bytes() == old(self).bytes() + seq![if data { 1u8 } else { 0u8 }],
    {
        self.write_u8(if data { 1 } else { 0 });
    }
}

} // verus!
