//! The device-to-server direction of the wire protocol, and the
//! per-connection state machine: it records the connection's identity,
//! reassembles a chunked image upload against its pending sensor report,
//! and emits a completed event for the dispatcher once the image is whole.
//! The socket itself lives outside the library; this state machine is fed
//! one decoded packet at a time.

use vstd::prelude::*;
use vstd::slice::{slice_subrange, slice_to_vec};
use crate::service::farm_service::{
    bytes_to_chars, chars_to_bytes, lemma_bytes_chars_round_trip, lemma_chars_bytes_round_trip,
    wf_client_packet, wf_server_packet, ClientPacket, ClientPacketV, ClientReceiverCommand,
    ClientReceiverCommandV, ServerPacket,
};
use crate::service::farm_service::server::{encode_server_packet, server_id_of, ServerPacketId};
use crate::service::farm_service::packet::{Packet, PacketError, PacketHeader, PacketId};
use crate::utils::buffer_reader::{u16_le, u32_le, u64_le, BufferReader};
use crate::utils::buffer_writer::{
    lemma_u16_le_round_trip, lemma_u64_le_round_trip, u16_le_bytes, u32_le_bytes, u64_le_bytes,
};

verus! {

#[derive(Debug, Clone, Copy, PartialEq, Eq, Structural)]
pub enum ClientPacketId {
    ReportId,
    ReportSensors,
    ImageFrame,
}

/// What a device payload buffer decodes to; rejected unless the buffer is
/// exactly the variant's payload size.
pub open spec fn decode_client_packet(id: ClientPacketId, bytes: Seq<u8>) -> Option<ClientPacketV> {
    match id {
        ClientPacketId::ReportId => if bytes.len() == 64 {
            Some(ClientPacketV::ReportId { id: bytes_to_chars(bytes) })
        } else {
            None
        },
        ClientPacketId::ReportSensors => if bytes.len() == 14 {
            Some(
                ClientPacketV::ReportSensors {
                    soil_moisture: u16_le(bytes[0], bytes[1]),
                    air_temperature: u16_le(bytes[2], bytes[3]),
                    light_sensor: u16_le(bytes[4], bytes[5]),
                    image_size: u64_le(
                        bytes[6],
                        bytes[7],
                        bytes[8],
                        bytes[9],
                        bytes[10],
                        bytes[11],
                        bytes[12],
                        bytes[13],
                    ),
                },
            )
        } else {
            None
        },
        ClientPacketId::ImageFrame => if bytes.len() == 136 {
            Some(
                ClientPacketV::ImageFrame {
                    frame_size: u64_le(
                        bytes[0],
                        bytes[1],
                        bytes[2],
                        bytes[3],
                        bytes[4],
                        bytes[5],
                        bytes[6],
                        bytes[7],
                    ),
                    frame: bytes.subrange(8, 136),
                },
            )
        } else {
            None
        },
    }
}

/// Payload bytes a device would send for a payload value: the 64
/// identifier bytes; the three sensor words and the image size; or the
/// frame size followed by the full 128-byte chunk.
pub open spec fn encode_client_packet(m: ClientPacketV) -> Seq<u8> {
    match m {
        ClientPacketV::ReportId { id } => chars_to_bytes(id),
        ClientPacketV::ReportSensors { soil_moisture, air_temperature, light_sensor, image_size } =>
            u16_le_bytes(soil_moisture) + u16_le_bytes(air_temperature) + u16_le_bytes(light_sensor)
            + u64_le_bytes(image_size),
        ClientPacketV::ImageFrame { frame_size, frame } => u64_le_bytes(frame_size) + frame,
    }
}

/// Converts payload bytes to identifier characters, one per byte.
fn bytes_to_chars_exec(bytes: &Vec<u8>) -> (r: Vec<char>)
    ensures
        r@ == bytes_to_chars(bytes@),
{
    let mut chars: Vec<char> = Vec::new();
    let mut i: usize = 0;
    while i < bytes.len()
        invariant
            0 <= i <= bytes@.len(),
            chars@.len() == i,
            forall|j: int| 0 <= j < i ==> chars@[j] == bytes_to_chars(bytes@)[j],
        decreases bytes@.len() - i,
    {
        chars.push(bytes[i] as char);
        i = i + 1;
    }
    proof {
        assert(chars@ =~= bytes_to_chars(bytes@));
    }
    chars
}

/// Decodes a `ReportId` payload: exactly 64 identifier bytes.
pub fn decode_report_id(buffer: BufferReader<'_>) -> (r: Result<ClientPacket, PacketError>)
    requires
        buffer.wf(),
        buffer.pos() == 0,
    ensures
        match decode_client_packet(ClientPacketId::ReportId, buffer.bytes()) {
            Some(m) => r matches Ok(p) && p@ == m && wf_client_packet(p@),
            None => r matches Err(e) && e == PacketError::InvalidPacketLength,
        },
{
    let mut buffer = buffer;
    if buffer.remaining() != 64 {
        return Err(PacketError::InvalidPacketLength);
    }
    let bytes = match buffer.const_read_bytes::<64>() {
        Some(bytes) => bytes,
        None => {
            return Err(PacketError::InvalidPacketLength);
        },
    };
    proof {
        assert(bytes@ =~= buffer.bytes());
        lemma_bytes_chars_round_trip(bytes@);
    }
    Ok(ClientPacket::ReportId { id: bytes_to_chars_exec(&bytes) })
}

/// Decodes a `ReportSensors` payload: three 16-bit sensor words then the
/// declared 64-bit image size.
pub fn decode_sensors(buffer: BufferReader<'_>) -> (r: Result<ClientPacket, PacketError>)
    requires
        buffer.wf(),
        buffer.pos() == 0,
    ensures
        match decode_client_packet(ClientPacketId::ReportSensors, buffer.bytes()) {
            Some(m) => r matches Ok(p) && p@ == m && wf_client_packet(p@),
            None => r matches Err(e) && e == PacketError::InvalidPacketLength,
        },
{
    let mut buffer = buffer;
    if buffer.remaining() != 14 {
        return Err(PacketError::InvalidPacketLength);
    }
    let soil_moisture = match buffer.read_u16() {
        Some(v) => v,
        None => {
            return Err(PacketError::InvalidPacketLength);
        },
    };
    let air_temperature = match buffer.read_u16() {
        Some(v) => v,
        None => {
            return Err(PacketError::InvalidPacketLength);
        },
    };
    let light_sensor = match buffer.read_u16() {
        Some(v) => v,
        None => {
            return Err(PacketError::InvalidPacketLength);
        },
    };
    let image_size = match buffer.read_u64() {
        Some(v) => v,
        None => {
            return Err(PacketError::InvalidPacketLength);
        },
    };
    Ok(ClientPacket::ReportSensors { soil_moisture, air_temperature, light_sensor, image_size })
}

/// Decodes an `ImageFrame` payload: the frame's used size then the full
/// 128-byte chunk.
pub fn decode_frame(buffer: BufferReader<'_>) -> (r: Result<ClientPacket, PacketError>)
    requires
        buffer.wf(),
        buffer.pos() == 0,
    ensures
        match decode_client_packet(ClientPacketId::ImageFrame, buffer.bytes()) {
            Some(m) => r matches Ok(p) && p@ == m && wf_client_packet(p@),
            None => r matches Err(e) && e == PacketError::InvalidPacketLength,
        },
{
    let mut buffer = buffer;
    if buffer.remaining() != 136 {
        return Err(PacketError::InvalidPacketLength);
    }
    let frame_size = match buffer.read_u64() {
        Some(v) => v,
        None => {
            return Err(PacketError::InvalidPacketLength);
        },
    };
    let frame = match buffer.const_read_bytes::<128>() {
        Some(frame) => frame,
        None => {
            return Err(PacketError::InvalidPacketLength);
        },
    };
    Ok(ClientPacket::ImageFrame { frame_size, frame })
}

impl PacketId for ClientPacketId {
    type Packet = ClientPacket;

    type Model = ClientPacketV;

    open spec fn packet_view(p: &ClientPacket) -> ClientPacketV {
        p@
    }

    open spec fn wf_packet(p: &ClientPacket) -> bool {
        wf_client_packet(p@)
    }

    open spec fn valid_id(id: u32) -> bool {
        id == 0 || id == 1 || id == 2
    }

    open spec fn id_spec(&self) -> u32 {
        match self {
            ClientPacketId::ReportId => 0,
            ClientPacketId::ReportSensors => 1,
            ClientPacketId::ImageFrame => 2,
        }
    }

    open spec fn is_id_of(&self, m: ClientPacketV) -> bool {
        match (self, m) {
            (ClientPacketId::ReportId, ClientPacketV::ReportId { .. }) => true,
            (ClientPacketId::ReportSensors, ClientPacketV::ReportSensors { .. }) => true,
            (ClientPacketId::ImageFrame, ClientPacketV::ImageFrame { .. }) => true,
            _ => false,
        }
    }

    open spec fn can_decode() -> bool {
        true
    }

    open spec fn can_encode() -> bool {
        false
    }

    open spec fn decode_spec(&self, bytes: Seq<u8>) -> Option<ClientPacketV> {
        decode_client_packet(*self, bytes)
    }

    open spec fn encode_spec(&self, m: ClientPacketV) -> Seq<u8> {
        encode_client_packet(m)
    }

    fn from_id(id: u32) -> (r: Option<Self>) {
        match id {
            0u32 => Some(ClientPacketId::ReportId),
            1u32 => Some(ClientPacketId::ReportSensors),
            2u32 => Some(ClientPacketId::ImageFrame),
            _ => None,
        }
    }

    fn from_packet(p: &ClientPacket) -> (r: Self) {
        match p {
            ClientPacket::ReportSensors { .. } => Self::ReportSensors,
            ClientPacket::ImageFrame { .. } => Self::ImageFrame,
            ClientPacket::ReportId { .. } => Self::ReportId,
        }
    }

    fn decode(&self, buffer: BufferReader<'_>) -> (r: Result<ClientPacket, PacketError>) {
        match self {
            Self::ReportId => decode_report_id(buffer),
            Self::ReportSensors => decode_sensors(buffer),
            Self::ImageFrame => decode_frame(buffer),
        }
    }

    // encoding device payloads is the device's side of the protocol;
    // `can_encode` rules this call out on the server
    fn encode(&self, buffer: &mut crate::utils::buffer_writer::BufferWriter, packet: ClientPacket) {
    }

    fn id(&self) -> (r: u32) {
        match self {
            ClientPacketId::ReportId => 0,
            ClientPacketId::ReportSensors => 1,
            ClientPacketId::ImageFrame => 2,
        }
    }
}

/// Round trip: any well-formed device payload, encoded under its id, is
/// decoded back to exactly itself.
pub proof fn lemma_client_packet_round_trip(id: ClientPacketId, m: ClientPacketV)
    requires
        wf_client_packet(m),
        id.is_id_of(m),
    ensures
        decode_client_packet(id, encode_client_packet(m)) == Some(m),
{
    match m {
        ClientPacketV::ReportId { id: d } => {
            lemma_chars_bytes_round_trip(d);
        },
        ClientPacketV::ReportSensors { soil_moisture, air_temperature, light_sensor, image_size } => {
            let bytes = encode_client_packet(m);
            lemma_u16_le_round_trip(soil_moisture);
            lemma_u16_le_round_trip(air_temperature);
            lemma_u16_le_round_trip(light_sensor);
            lemma_u64_le_round_trip(image_size);
            assert(bytes[0] == u16_le_bytes(soil_moisture)[0]);
            assert(bytes[1] == u16_le_bytes(soil_moisture)[1]);
            assert(bytes[2] == u16_le_bytes(air_temperature)[0]);
            assert(bytes[3] == u16_le_bytes(air_temperature)[1]);
            assert(bytes[4] == u16_le_bytes(light_sensor)[0]);
            assert(bytes[5] == u16_le_bytes(light_sensor)[1]);
            assert forall|k: int| 0 <= k < 8 implies bytes[6 + k] == u64_le_bytes(image_size)[k] by {
            }
        },
        ClientPacketV::ImageFrame { frame_size, frame } => {
            let bytes = encode_client_packet(m);
            lemma_u64_le_round_trip(frame_size);
            assert forall|k: int| 0 <= k < 8 implies bytes[k] == u64_le_bytes(frame_size)[k] by {
            }
            assert(bytes.subrange(8, 136) =~= frame);
        },
    }
}

/// Sensor values received but awaiting completion of their image payload.
#[derive(Debug, Clone, Copy, PartialEq, Eq, Structural)]
pub struct PendingReport {
    pub soil_moisture: u16,
    pub air_temperature: u16,
    pub light_sensor: u16,
    pub image_size: u64,
}

/// One device connection's protocol state: its reported identity, the
/// report awaiting an image, and the partial image assembled so far.
pub struct Client {
    pending_report: Option<PendingReport>,
    image_buffer: Vec<u8>,
    id: Option<Vec<char>>,
}

/// Mathematical image of a `Client`.
pub struct ClientV {
    pub pending_report: Option<PendingReport>,
    pub image_buffer: Seq<u8>,
    pub id: Option<Seq<char>>,
}

impl View for Client {
    type V = ClientV;

    closed spec fn view(&self) -> ClientV {
        ClientV {
            pending_report: self.pending_report,
            image_buffer: self.image_buffer@,
            id: match self.id {
                Some(ref d) => Some(d@),
                None => None,
            },
        }
    }
}

/// A connection's invariant: a recorded identity is a well-formed device
/// id, and a report is only ever pending on an identified connection.
pub open spec fn wf_client(s: ClientV) -> bool {
    &&& (s.id matches Some(d) ==> d.len() == 64 && forall|i: int|
        0 <= i < 64 ==> (#[trigger] d[i] as int) < 256)
    &&& (s.pending_report is Some ==> s.id is Some)
}

/// Bytes of a frame that count: the declared size, capped at the chunk's
/// actual length.
pub open spec fn frame_take(frame_size: u64, frame: Seq<u8>) -> int {
    if frame_size <= frame.len() {
        frame_size as int
    } else {
        frame.len() as int
    }
}

/// One step of the connection state machine: the state after a decoded
/// inbound packet, with the event (if any) handed to the dispatcher.
pub open spec fn client_step(s: ClientV, p: ClientPacketV, sender: u64) -> (
    ClientV,
    Option<ClientReceiverCommandV>,
) {
    match p {
        ClientPacketV::ReportId { id } => (
            ClientV { id: Some(id), ..s },
            Some(ClientReceiverCommandV::ReportClient { id, sender }),
        ),
        ClientPacketV::ReportSensors { soil_moisture, air_temperature, light_sensor, image_size } =>
            if s.id is Some {
                (
                    ClientV {
                        pending_report: Some(
                            PendingReport {
                                soil_moisture,
                                air_temperature,
                                light_sensor,
                                image_size,
                            },
                        ),
                        image_buffer: Seq::empty(),
                        ..s
                    },
                    None,
                )
            } else {  // a sensor report on an unidentified connection is dropped
                (s, None)
            },
        ClientPacketV::ImageFrame { frame_size, frame } => match s.pending_report {
            None => (s, None),  // a frame with no pending report is dropped
            Some(rep) => {
                let appended = s.image_buffer + frame.subrange(0, frame_take(frame_size, frame));
                if appended.len() >= rep.image_size {
                    (
                        ClientV { pending_report: None, image_buffer: Seq::empty(), ..s },
                        Some(
                            ClientReceiverCommandV::ReportSensors {
                                id: s.id.unwrap(),
                                soil_moisture: rep.soil_moisture,
                                air_temperature: rep.air_temperature,
                                light_sensor: rep.light_sensor,
                                image: appended,
                            },
                        ),
                    )
                } else {
                    (ClientV { image_buffer: appended, ..s }, None)
                }
            },
        },
    }
}

impl Client {
    pub fn new() -> (r: Self)
        ensures
            r@ == (ClientV {
                pending_report: None::<PendingReport>,
                image_buffer: Seq::<u8>::empty(),
                id: None::<Seq<char>>,
            }),
            wf_client(r@),
    {
        let r = Self { pending_report: None, image_buffer: Vec::new(), id: None };
        proof {
            assert(r@.image_buffer =~= Seq::<u8>::empty());
        }
        r
    }

    /// Feeds one decoded inbound packet to the state machine.  `sender` is
    /// the token of this connection's outbound queue, carried into the
    /// registration event.  Returns the event to forward to the
    /// dispatcher, if this packet completed one.
    pub fn handle_client_packet(&mut self, packet: ClientPacket, sender: u64) -> (r: Option<
        ClientReceiverCommand,
    >)
        requires
            wf_client(old(self)@),
            wf_client_packet(packet@),
        ensures
            wf_client((*final(self))@),
            (*final(self))@ == client_step(old(self)@, packet@, sender).0,
            ({
                let ev = client_step(old(self)@, packet@, sender).1;
                &&& (r is Some <==> ev is Some)
                &&& (r matches Some(c) ==> c@ == ev.unwrap())
            }),
    {
        match packet {
            ClientPacket::ReportId { id } => {
                let id2 = id.clone();
                proof {
                    assert(id2@ =~= id@);
                }
                self.id = Some(id);
                Some(ClientReceiverCommand::ReportClient { id: id2, sender })
            },
            ClientPacket::ReportSensors {
                soil_moisture,
                air_temperature,
                light_sensor,
                image_size,
            } => {
                if self.id.is_some() {
                    self.pending_report = Some(
                        PendingReport { soil_moisture, air_temperature, light_sensor, image_size },
                    );
                    self.image_buffer = Vec::new();
                    proof {
                        assert(self@.image_buffer =~= Seq::<u8>::empty());
                    }
                }
                None
            },
            ClientPacket::ImageFrame { frame_size, frame } => {
                let report = match self.pending_report {
                    Some(report) => report,
                    None => {
                        return None;
                    },
                };
                let take: usize = if frame_size <= frame.len() as u64 {
                    frame_size as usize
                } else {
                    frame.len()
                };
                proof {
                    assert(take as int == frame_take(frame_size, frame@));
                }
                self.image_buffer.extend_from_slice(slice_subrange(frame.as_slice(), 0, take));
                proof {
                    assert(self@.image_buffer == old(self)@.image_buffer + frame@.subrange(
                        0,
                        frame_take(frame_size, frame@),
                    ));
                    assert(self@.pending_report == old(self)@.pending_report);
                    assert(self@.id == old(self)@.id);
                }
                if self.image_buffer.len() as u64 >= report.image_size {
                    let id = match &self.id {
                        Some(d) => d.clone(),
                        None => vstd::pervasive::unreached(),
                    };
                    proof {
                        assert(id@ =~= old(self)@.id.unwrap());
                    }
                    let mut image: Vec<u8> = Vec::new();
                    core::mem::swap(&mut image, &mut self.image_buffer);
                    self.pending_report = None;
                    proof {
                        assert(self@.image_buffer =~= Seq::<u8>::empty());
                    }
                    Some(
                        ClientReceiverCommand::ReportSensors {
                            id,
                            soil_moisture: report.soil_moisture,
                            air_temperature: report.air_temperature,
                            light_sensor: report.light_sensor,
                            image,
                        },
                    )
                } else {
                    None
                }
            },
        }
    }
    /// Frames an outbound command for the socket: the eight header bytes
    /// (payload length then type id, little-endian) followed by the
    /// payload, in that order.
    pub fn handle_server_packet(&self, server_packet: ServerPacket) -> (r: Vec<u8>)
        requires
            wf_server_packet(server_packet@),
        ensures
            r@ == u32_le_bytes(encode_server_packet(server_packet@).len() as u32) + u32_le_bytes(
                server_id_of(server_packet@),
            ) + encode_server_packet(server_packet@),
    {
        let ghost m = server_packet@;
        proof {
            assert(encode_server_packet(m).len() <= 64);
        }
        let mut packet = match Packet::<ServerPacketId>::new_packet(&server_packet, Vec::new()) {
            Ok(packet) => packet,
            Err(_) => vstd::pervasive::unreached(),
        };
        packet.encode(server_packet);
        proof {
            assert(packet.id_val().id_spec() == server_id_of(m));
        }
        let header = packet.header();
        let mut out = header.to_bytes();
        let mut payload = packet.into_buffer();
        out.append(&mut payload);
        proof {
            assert(out@ =~= u32_le_bytes(encode_server_packet(m).len() as u32) + u32_le_bytes(
                server_id_of(m),
            ) + encode_server_packet(m));
        }
        out
    }
}

/// Spec-level mapping from a numeric type id to the device-direction
/// variant it names.
pub open spec fn client_id_of(id: u32) -> Option<ClientPacketId> {
    if id == 0 {
        Some(ClientPacketId::ReportId)
    } else if id == 1 {
        Some(ClientPacketId::ReportSensors)
    } else if id == 2 {
        Some(ClientPacketId::ImageFrame)
    } else {
        None
    }
}

/// One complete frame at the head of `bytes`: the 8 header bytes, then
/// exactly the declared number of payload bytes, decoded under the
/// declared type id.  `None` when the buffer is too short for the header
/// or the declared payload, the id is unknown, or the payload is
/// rejected.
pub open spec fn parse_client_frame_spec(bytes: Seq<u8>) -> Option<(ClientPacketV, int)> {
    if bytes.len() < 8 {
        None
    } else {
        let len = u32_le(bytes[0], bytes[1], bytes[2], bytes[3]) as int;
        let tid = u32_le(bytes[4], bytes[5], bytes[6], bytes[7]);
        if bytes.len() < 8 + len {
            None
        } else {
            match client_id_of(tid) {
                None => None,
                Some(id) => match decode_client_packet(id, bytes.subrange(8, 8 + len)) {
                    None => None,
                    Some(m) => Some((m, 8 + len)),
                },
            }
        }
    }
}

/// Extracts and decodes one complete device-to-server frame from the head
/// of `bytes`, returning the packet and the bytes consumed.
pub fn parse_client_frame(bytes: &[u8]) -> (r: Option<(ClientPacket, usize)>)
    ensures
        match parse_client_frame_spec(bytes@) {
            Some((m, n)) => r matches Some((p, c)) && p@ == m && wf_client_packet(p@) && c == n,
            None => r is None,
        },
{
    let header = match PacketHeader::from_bytes(bytes) {
        Ok(header) => header,
        Err(_) => {
            return None;
        },
    };
    let length = header.length() as usize;
    if length > bytes.len() - 8 {
        return None;
    }
    let payload = slice_to_vec(slice_subrange(bytes, 8, 8 + length));
    let packet = match Packet::<ClientPacketId>::new(header.id(), payload) {
        Ok(packet) => packet,
        Err(_) => {
            return None;
        },
    };
    match packet.decode() {
        Ok(p) => Some((p, 8 + length)),
        Err(_) => None,
    }
}

/// Frame length invariant: a header declaring `len` payload bytes that is
/// followed by fewer than `len` bytes is never accepted as a complete
/// frame.
pub proof fn lemma_truncated_frame_rejected(bytes: Seq<u8>)
    requires
        bytes.len() >= 8,
        bytes.len() < 8 + u32_le(bytes[0], bytes[1], bytes[2], bytes[3]),
    ensures
        parse_client_frame_spec(bytes) is None,
{
}

/// Dropping a stray frame: an `ImageFrame` that arrives with no pending
/// report leaves the connection state exactly as it was and produces no
/// event.
pub proof fn lemma_image_frame_without_report(
    s: ClientV,
    frame_size: u64,
    frame: Seq<u8>,
    sender: u64,
)
    requires
        s.pending_report is None,
    ensures
        client_step(s, ClientPacketV::ImageFrame { frame_size, frame }, sender) == (
            s,
            None::<ClientReceiverCommandV>,
        ),
{
}

/// Total number of bytes a run of frames contributes.
pub open spec fn frames_total(frames: Seq<(u64, Seq<u8>)>) -> int
    decreases frames.len(),
{
    if frames.len() == 0 {
        0
    } else {
        frame_take(frames[0].0, frames[0].1) + frames_total(frames.drop_first())
    }
}

/// The bytes a run of frames contributes, in arrival order.
pub open spec fn frames_concat(frames: Seq<(u64, Seq<u8>)>) -> Seq<u8>
    decreases frames.len(),
{
    if frames.len() == 0 {
        Seq::empty()
    } else {
        frames[0].1.subrange(0, frame_take(frames[0].0, frames[0].1)) + frames_concat(
            frames.drop_first(),
        )
    }
}

/// Connection state and dispatcher events after a run of image-frame
/// packets, fed in order.
pub open spec fn run_frames(s: ClientV, frames: Seq<(u64, Seq<u8>)>, sender: u64) -> (
    ClientV,
    Seq<ClientReceiverCommandV>,
)
    decreases frames.len(),
{
    if frames.len() == 0 {
        (s, Seq::empty())
    } else {
        let step = client_step(
            s,
            ClientPacketV::ImageFrame { frame_size: frames[0].0, frame: frames[0].1 },
            sender,
        );
        let rest = run_frames(step.0, frames.drop_first(), sender);
        (
            rest.0,
            match step.1 {
                Some(e) => seq![e] + rest.1,
                None => rest.1,
            },
        )
    }
}

proof fn lemma_frames_total_nonneg(frames: Seq<(u64, Seq<u8>)>)
    ensures
        frames_total(frames) >= 0,
    decreases frames.len(),
{
    if frames.len() > 0 {
        lemma_frames_total_nonneg(frames.drop_first());
    }
}

proof fn lemma_frames_concat_len(frames: Seq<(u64, Seq<u8>)>)
    ensures
        frames_concat(frames).len() == frames_total(frames),
    decreases frames.len(),
{
    if frames.len() > 0 {
        lemma_frames_concat_len(frames.drop_first());
    }
}

/// A run of frames contributing no bytes contributes no content either.
proof fn lemma_frames_concat_zero(frames: Seq<(u64, Seq<u8>)>)
    requires
        frames_total(frames) == 0,
    ensures
        frames_concat(frames) == Seq::<u8>::empty(),
    decreases frames.len(),
{
    if frames.len() > 0 {
        lemma_frames_total_nonneg(frames.drop_first());
        lemma_frames_concat_zero(frames.drop_first());
        assert(frames_concat(frames) =~= Seq::<u8>::empty());
    } else {
        assert(frames_concat(frames) =~= Seq::<u8>::empty());
    }
}

/// With no report pending, image frames are all dropped: the state stays
/// put and no event is produced.
proof fn lemma_run_frames_no_pending(s: ClientV, frames: Seq<(u64, Seq<u8>)>, sender: u64)
    requires
        s.pending_report is None,
    ensures
        run_frames(s, frames, sender) == (s, Seq::<ClientReceiverCommandV>::empty()),
    decreases frames.len(),
{
    if frames.len() > 0 {
        lemma_run_frames_no_pending(s, frames.drop_first(), sender);
    }
}

/// Image reassembly: with a report pending and frames whose contributed
/// bytes sum to exactly what the report still expects, the run produces
/// exactly one completed sensor event, whose image is the pending buffer
/// followed by the frames' bytes in arrival order — however many frames
/// the upload was split into — and leaves the connection idle.
pub proof fn lemma_image_reassembly(s: ClientV, frames: Seq<(u64, Seq<u8>)>, sender: u64)
    requires
        wf_client(s),
        s.pending_report is Some,
        frames.len() >= 1,
        s.image_buffer.len() + frames_total(frames) == s.pending_report.unwrap().image_size,
    ensures
        ({
            let rep = s.pending_report.unwrap();
            let out = run_frames(s, frames, sender);
            &&& out.1 =~= seq![
                ClientReceiverCommandV::ReportSensors {
                    id: s.id.unwrap(),
                    soil_moisture: rep.soil_moisture,
                    air_temperature: rep.air_temperature,
                    light_sensor: rep.light_sensor,
                    image: s.image_buffer + frames_concat(frames),
                },
            ]
            &&& (s.image_buffer + frames_concat(frames)).len() == rep.image_size
            &&& out.0 == (ClientV {
                pending_report: None::<PendingReport>,
                image_buffer: Seq::<u8>::empty(),
                id: s.id,
            })
        }),
    decreases frames.len(),
{
    let rep = s.pending_report.unwrap();
    let f0 = frames[0];
    let take = frame_take(f0.0, f0.1);
    let appended = s.image_buffer + f0.1.subrange(0, take);
    let step = client_step(
        s,
        ClientPacketV::ImageFrame { frame_size: f0.0, frame: f0.1 },
        sender,
    );
    let rest = frames.drop_first();
    lemma_frames_total_nonneg(rest);
    lemma_frames_concat_len(frames);
    if appended.len() >= rep.image_size {
        assert(frames_total(rest) == 0);
        lemma_frames_concat_zero(rest);
        assert(frames_concat(frames) =~= f0.1.subrange(0, take));
        lemma_run_frames_no_pending(step.0, rest, sender);
        assert(run_frames(s, frames, sender).1 =~= seq![step.1.unwrap()]);
    } else {
        let s1 = step.0;
        assert(s1 == (ClientV { image_buffer: appended, ..s }));
        assert(frames_total(rest) == rep.image_size - appended.len());
        if rest.len() == 0 {
            assert(frames_total(rest) == 0);
            assert(false);
        }
        lemma_image_reassembly(s1, rest, sender);
        assert(s1.image_buffer + frames_concat(rest) =~= s.image_buffer + frames_concat(frames));
        assert(run_frames(s, frames, sender).1 =~= run_frames(s1, rest, sender).1);
    }
}

/// The full reassembly scenario: a sensor report announcing an image of
/// `image_size` bytes, followed by any number of frames that together
/// contribute exactly that many bytes, yields exactly one completed
/// sensor event carrying those bytes in arrival order — no matter how
/// the upload was split.
pub proof fn lemma_report_then_frames(
    s: ClientV,
    soil_moisture: u16,
    air_temperature: u16,
    light_sensor: u16,
    image_size: u64,
    frames: Seq<(u64, Seq<u8>)>,
    sender: u64,
)
    requires
        wf_client(s),
        s.id is Some,
        frames.len() >= 1,
        frames_total(frames) == image_size,
    ensures
        ({
            let report = ClientPacketV::ReportSensors {
                soil_moisture,
                air_temperature,
                light_sensor,
                image_size,
            };
            let s1 = client_step(s, report, sender).0;
            let out = run_frames(s1, frames, sender);
            &&& client_step(s, report, sender).1 is None
            &&& out.1 =~= seq![
                ClientReceiverCommandV::ReportSensors {
                    id: s.id.unwrap(),
                    soil_moisture,
                    air_temperature,
                    light_sensor,
                    image: frames_concat(frames),
                },
            ]
            &&& frames_concat(frames).len() == image_size
            &&& out.0 == (ClientV {
                pending_report: None::<PendingReport>,
                image_buffer: Seq::<u8>::empty(),
                id: s.id,
            })
        }),
{
    let report = ClientPacketV::ReportSensors {
        soil_moisture,
        air_temperature,
        light_sensor,
        image_size,
    };
    let s1 = client_step(s, report, sender).0;
    lemma_image_reassembly(s1, frames, sender);
    assert(s1.image_buffer + frames_concat(frames) =~= frames_concat(frames));
}

} // verus!

