//! The server-to-device direction of the wire protocol: its type-id table
//! and payload encodings.  This direction encodes; decoding these ids is
//! the device's job, so the decode path is ruled out by contract, though
//! its byte-level meaning is still specified for the round-trip law.

use vstd::prelude::*;
use crate::service::farm_service::{
    chars_to_bytes, bytes_to_chars, lemma_chars_bytes_round_trip, wf_server_packet, ServerPacket,
    ServerPacketV,
};
use crate::service::farm_service::packet::{PacketError, PacketId};
use crate::utils::buffer_reader::BufferReader;
use crate::utils::buffer_writer::BufferWriter;

verus! {

#[derive(Debug, Clone, Copy, PartialEq, Eq, Structural)]
pub enum ServerPacketId {
    UpdateCooler,
    WaterPulse,
    ResponseId,
}

/// The numeric id that tags a server payload.
pub open spec fn server_id_of(m: ServerPacketV) -> u32 {
    match m {
        ServerPacketV::UpdateCooler { .. } => 0,
        ServerPacketV::WaterPulse => 1,
        ServerPacketV::ResponseId { .. } => 2,
    }
}

/// Payload bytes of a server packet: a cooler update is one status byte
/// (1 for on), a water pulse has no payload, an id response is the 64
/// identifier bytes.
pub open spec fn encode_server_packet(m: ServerPacketV) -> Seq<u8> {
    match m {
        ServerPacketV::UpdateCooler { status } => seq![if status { 1u8 } else { 0u8 }],
        ServerPacketV::WaterPulse => Seq::<u8>::empty(),
        ServerPacketV::ResponseId { id } => chars_to_bytes(id),
    }
}

/// What a device reads back from a server payload buffer; rejected unless
/// the buffer is exactly the variant's payload size.
pub open spec fn decode_server_packet(id: ServerPacketId, bytes: Seq<u8>) -> Option<ServerPacketV> {
    match id {
        ServerPacketId::UpdateCooler => if bytes.len() == 1 {
            Some(ServerPacketV::UpdateCooler { status: bytes[0] != 0 })
        } else {
            None
        },
        ServerPacketId::WaterPulse => if bytes.len() == 0 {
            Some(ServerPacketV::WaterPulse)
        } else {
            None
        },
        ServerPacketId::ResponseId => if bytes.len() == 64 {
            Some(ServerPacketV::ResponseId { id: bytes_to_chars(bytes) })
        } else {
            None
        },
    }
}

impl PacketId for ServerPacketId {
    type Packet = ServerPacket;

    type Model = ServerPacketV;

    open spec fn packet_view(p: &ServerPacket) -> ServerPacketV {
        p@
    }

    open spec fn wf_packet(p: &ServerPacket) -> bool {
        wf_server_packet(p@)
    }

    open spec fn valid_id(id: u32) -> bool {
        id == 0 || id == 1 || id == 2
    }

    open spec fn id_spec(&self) -> u32 {
        match self {
            ServerPacketId::UpdateCooler => 0,
            ServerPacketId::WaterPulse => 1,
            ServerPacketId::ResponseId => 2,
        }
    }

    open spec fn is_id_of(&self, m: ServerPacketV) -> bool {
        match (self, m) {
            (ServerPacketId::UpdateCooler, ServerPacketV::UpdateCooler { .. }) => true,
            (ServerPacketId::WaterPulse, ServerPacketV::WaterPulse) => true,
            (ServerPacketId::ResponseId, ServerPacketV::ResponseId { .. }) => true,
            _ => false,
        }
    }

    open spec fn can_decode() -> bool {
        false
    }

    open spec fn can_encode() -> bool {
        true
    }

    open spec fn decode_spec(&self, bytes: Seq<u8>) -> Option<ServerPacketV> {
        decode_server_packet(*self, bytes)
    }

    open spec fn encode_spec(&self, m: ServerPacketV) -> Seq<u8> {
        encode_server_packet(m)
    }

    fn from_id(id: u32) -> (r: Option<Self>) {
        match id {
            0u32 => Some(ServerPacketId::UpdateCooler),
            1u32 => Some(ServerPacketId::WaterPulse),
            2u32 => Some(ServerPacketId::ResponseId),
            _ => None,
        }
    }

    fn from_packet(p: &ServerPacket) -> (r: Self) {
        match p {
            ServerPacket::WaterPulse => Self::WaterPulse,
            ServerPacket::ResponseId { .. } => Self::ResponseId,
            ServerPacket::UpdateCooler { .. } => Self::UpdateCooler,
        }
    }

    // decoding server ids is the device's side of the protocol;
    // `can_decode` rules this call out on the server
    fn decode(&self, _buffer: BufferReader<'_>) -> (r: Result<ServerPacket, PacketError>) {
        Err(PacketError::InvalidPacketLength)
    }

    fn encode(&self, buffer: &mut BufferWriter, packet: ServerPacket) {
        match (self, packet) {
            (Self::UpdateCooler, ServerPacket::UpdateCooler { status }) => {
                buffer.write_bool(status);
            },
            (Self::WaterPulse, ServerPacket::WaterPulse) => {},
            (Self::ResponseId, ServerPacket::ResponseId { id }) => {
                let ghost idv = id@;
                let mut i: usize = 0;
                while i < id.len()
                    invariant
                        0 <= i <= idv.len(),
                        id@ == idv,
                        forall|j: int| 0 <= j < idv.len() ==> (#[trigger] idv[j] as int) < 256,
                        buffer.bytes() == old(buffer).bytes() + chars_to_bytes(
                            idv.subrange(0, i as int),
                        ),
                    decreases idv.len() - i,
                {
                    let c = id[i];
                    proof {
                        assert((idv[i as int] as int) < 256);
                    }
                    buffer.write_u8((c as u32) as u8);
                    proof {
                        assert(old(buffer).bytes() + chars_to_bytes(idv.subrange(0, i as int))
                            + seq![(idv[i as int] as u32) as u8] =~= old(buffer).bytes()
                            + chars_to_bytes(idv.subrange(0, i as int + 1)));
                    }
                    i = i + 1;
                }
                proof {
                    assert(idv.subrange(0, idv.len() as int) =~= idv);
                }
            },
            // ruled out: the id is required to tag the packet
            _ => {},
        }
    }

    fn id(&self) -> (r: u32) {
        match self {
            ServerPacketId::UpdateCooler => 0,
            ServerPacketId::WaterPulse => 1,
            ServerPacketId::ResponseId => 2,
        }
    }
}

/// Round trip: any well-formed server payload, encoded under its id, is
/// decoded back to exactly itself.
pub proof fn lemma_server_packet_round_trip(id: ServerPacketId, m: ServerPacketV)
    requires
        wf_server_packet(m),
        id.is_id_of(m),
    ensures
        decode_server_packet(id, encode_server_packet(m)) == Some(m),
{
    match m {
        ServerPacketV::UpdateCooler { status } => {
        },
        ServerPacketV::WaterPulse => {
        },
        ServerPacketV::ResponseId { id: d } => {
            lemma_chars_bytes_round_trip(d);
        },
    }
}

} // verus!
