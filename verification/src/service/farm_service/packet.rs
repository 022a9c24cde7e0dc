//! Packet framing: a frame on the wire is a header of (payload length,
//! numeric type id), both 32-bit little-endian, followed by exactly
//! `length` bytes of payload.  The `PacketId` trait maps numeric ids to
//! typed payload variants, one implementation per direction; decoding and
//! encoding are direction-asymmetric by contract.

use vstd::prelude::*;
use crate::utils::buffer_reader::{u32_le, BufferReader};
use crate::utils::buffer_writer::{u32_le_bytes, BufferWriter};

verus! {

#[derive(Debug, Clone, Copy, PartialEq, Eq, Structural)]
pub enum PacketError {
    InvalidPacketLength,
    InvalidPacketId,
}

impl PacketError {
    /// Human-readable description of the error.
    pub fn message(&self) -> (r: String)
        ensures
            *self is InvalidPacketLength ==> r@ == "Invalid packet length"@,
            *self is InvalidPacketId ==> r@ == "Invalid packet id"@,
    {
        match self {
            Self::InvalidPacketLength => "Invalid packet length".to_owned(),
            Self::InvalidPacketId => "Invalid packet id".to_owned(),
        }
    }
}

/// Maps a direction's numeric type ids to its typed payload variants and
/// carries the byte-level meaning of each payload.  `Packet` is the
/// associated payload type; `Model` is its mathematical image, which the
/// encode/decode specifications are stated over.
pub trait PacketId: Sized {
    type Packet;

    type Model;

    /// Mathematical image of a payload value.
    spec fn packet_view(p: &Self::Packet) -> Self::Model;

    /// Structural constraints every decoded or encodable payload obeys.
    spec fn wf_packet(p: &Self::Packet) -> bool;

    /// Whether a numeric id names a variant of this direction.
    spec fn valid_id(id: u32) -> bool;

    /// The numeric id of this variant.
    spec fn id_spec(&self) -> u32;

    /// Whether this id tags the given payload.
    spec fn is_id_of(&self, m: Self::Model) -> bool;

    /// Whether this direction supports decoding (device-to-server does;
    /// calling `decode` on the other direction is a programming error and
    /// is ruled out statically).
    spec fn can_decode() -> bool;

    /// Whether this direction supports encoding (server-to-device does).
    spec fn can_encode() -> bool;

    /// What a payload buffer decodes to, or `None` when it is rejected.
    spec fn decode_spec(&self, bytes: Seq<u8>) -> Option<Self::Model>;

    /// The payload bytes a value encodes to.
    spec fn encode_spec(&self, m: Self::Model) -> Seq<u8>;

    /// The variant named by a numeric id, or `None` for an unknown id.
    fn from_id(id: u32) -> (r: Option<Self>)
        ensures
            r is Some <==> Self::valid_id(id),
            r matches Some(t) ==> t.id_spec() == id,
    ;

    /// The id that tags the given payload.
    fn from_packet(p: &Self::Packet) -> (r: Self)
        ensures
            r.is_id_of(Self::packet_view(p)),
    ;

    fn decode(&self, buffer: BufferReader<'_>) -> (r: Result<Self::Packet, PacketError>)
        requires
            Self::can_decode(),
            buffer.wf(),
            buffer.pos() == 0,
        ensures
            match self.decode_spec(buffer.bytes()) {
                Some(m) => r matches Ok(p) && Self::packet_view(&p) == m && Self::wf_packet(&p),
                None => r matches Err(e) && e == PacketError::InvalidPacketLength,
            },
    ;

    fn encode(&self, buffer: &mut BufferWriter, packet: Self::Packet)
        requires
            Self::can_encode(),
            Self::wf_packet(&packet),
            self.is_id_of(Self::packet_view(&packet)),
        ensures
            final(buffer).bytes() == old(buffer).bytes() + self.encode_spec(
                Self::packet_view(&packet),
            ),
    ;

    fn id(&self) -> (r: u32)
        ensures
            r == self.id_spec(),
    ;
}

pub struct PacketHeader {
    length: u32,
    id: u32,
}

impl PacketHeader {
    pub closed spec fn spec_length(&self) -> u32 {
        self.length
    }

    pub closed spec fn spec_id(&self) -> u32 {
        self.id
    }

    pub fn length(&self) -> (r: u32)
        ensures
            r == self.spec_length(),
    {
        self.length
    }

    pub fn id(&self) -> (r: u32)
        ensures
            r == self.spec_id(),
    {
        self.id
    }

    /// Reads a header from the first eight bytes of `buffer`: the payload
    /// length then the type id, both 32-bit little-endian.
    pub fn from_bytes(buffer: &[u8]) -> (r: Result<Self, PacketError>)
        ensures
            buffer@.len() >= 8 ==> (r matches Ok(h) && h.spec_length() == u32_le(
                buffer@[0],
                buffer@[1],
                buffer@[2],
                buffer@[3],
            ) && h.spec_id() == u32_le(buffer@[4], buffer@[5], buffer@[6], buffer@[7])),
            buffer@.len() < 8 ==> (r matches Err(e) && e == PacketError::InvalidPacketLength),
    {
        let mut reader = BufferReader::new(buffer);
        let length = match reader.read_u32() {
            Some(length) => length,
            None => {
                return Err(PacketError::InvalidPacketLength);
            },
        };
        let id = match reader.read_u32() {
            Some(id) => id,
            None => {
                return Err(PacketError::InvalidPacketLength);
            },
        };
        Ok(Self { length, id })
    }

    /// The eight header bytes: length then id, little-endian.
    pub fn to_bytes(&self) -> (r: Vec<u8>)
        ensures
            r@ == u32_le_bytes(self.spec_length()) + u32_le_bytes(self.spec_id()),
    {
        let mut buffer_writer = BufferWriter::new(Vec::new());
        buffer_writer.write_u32(self.length);
        buffer_writer.write_u32(self.id);
        buffer_writer.into_vec()
    }
}

/// A typed id together with the payload buffer it tags.
pub struct Packet<T: PacketId> {
    id: T,
    buffer: Vec<u8>,
}

impl<T: PacketId> Packet<T> {
    pub closed spec fn id_val(&self) -> T {
        self.id
    }

    pub closed spec fn buf(&self) -> Seq<u8> {
        self.buffer@
    }

    /// Tags a received payload buffer with the variant its numeric id
    /// names; unknown ids are rejected.
    pub fn new(id: u32, buffer: Vec<u8>) -> (r: Result<Self, PacketError>)
        ensures
            r is Ok <==> T::valid_id(id),
            r matches Ok(p) ==> p.id_val().id_spec() == id && p.buf() == buffer@,
            !T::valid_id(id) ==> (r matches Err(e) && e == PacketError::InvalidPacketId),
    {
        match T::from_id(id) {
            Some(t) => Ok(Self { id: t, buffer }),
            None => Err(PacketError::InvalidPacketId),
        }
    }

    /// Tags a buffer with the id of the payload value about to be encoded
    /// into it.
    pub fn new_packet(packet: &T::Packet, buffer: Vec<u8>) -> (r: Result<Self, PacketError>)
        ensures
            r matches Ok(p) && p.id_val().is_id_of(T::packet_view(packet)) && p.buf() == buffer@,
    {
        Ok(Self { id: T::from_packet(packet), buffer })
    }

    /// Appends the encoding of `packet` to the payload buffer.
    pub fn encode(&mut self, packet: T::Packet)
        requires
            T::can_encode(),
            T::wf_packet(&packet),
            old(self).id_val().is_id_of(T::packet_view(&packet)),
        ensures
            final(self).id_val() == old(self).id_val(),
            final(self).buf() == old(self).buf() + old(self).id_val().encode_spec(
                T::packet_view(&packet),
            ),
    {
        let mut tmp: Vec<u8> = Vec::new();
        core::mem::swap(&mut tmp, &mut self.buffer);
        let mut writer = BufferWriter::new(tmp);
        self.id.encode(&mut writer, packet);
        self.buffer = writer.into_vec();
    }

    /// Decodes the payload buffer under this packet's id.
    pub fn decode(&self) -> (r: Result<T::Packet, PacketError>)
        requires
            T::can_decode(),
        ensures
            match self.id_val().decode_spec(self.buf()) {
                Some(m) => r matches Ok(p) && T::packet_view(&p) == m && T::wf_packet(&p),
                None => r matches Err(e) && e == PacketError::InvalidPacketLength,
            },
    {
        self.id.decode(BufferReader::new(self.buffer.as_slice()))
    }

    /// Hands the payload buffer back.
    pub fn into_buffer(self) -> (r: Vec<u8>)
        ensures
            r@ == self.buf(),
    {
        self.buffer
    }

    /// The frame header for the current payload buffer; the payload must
    /// fit the header's 32-bit length field.
    pub fn header(&self) -> (r: PacketHeader)
        requires
            self.buf().len() <= u32::MAX,
        ensures
            r.spec_length() == self.buf().len(),
            r.spec_id() == self.id_val().id_spec(),
    {
        PacketHeader { length: self.buffer.len() as u32, id: self.id.id() }
    }
}

} // verus!
