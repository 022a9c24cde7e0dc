//! The farm dispatcher: owns the table of live device sessions and applies
//! control policy to incoming sensor events.  All mutation of the table
//! happens through `Service::process`, one request at a time, so the
//! mailbox loop that drives it needs no further synchronization.

pub mod client;
pub mod packet;
pub mod server;

use vstd::prelude::*;
use crate::service::db_service::DBServiceError;

verus! {

/// Device-to-server payloads.  A device identifier is always exactly 64
/// characters, each one byte wide on the wire.
#[derive(Debug, Clone, PartialEq, Eq)]
pub enum ClientPacket {
    ReportId { id: Vec<char> },
    ReportSensors { soil_moisture: u16, air_temperature: u16, light_sensor: u16, image_size: u64 },
    ImageFrame { frame_size: u64, frame: Vec<u8> },
}

/// Mathematical image of a `ClientPacket`.
pub enum ClientPacketV {
    ReportId { id: Seq<char> },
    ReportSensors { soil_moisture: u16, air_temperature: u16, light_sensor: u16, image_size: u64 },
    ImageFrame { frame_size: u64, frame: Seq<u8> },
}

impl View for ClientPacket {
    type V = ClientPacketV;

    open spec fn view(&self) -> ClientPacketV {
        match self {
            ClientPacket::ReportId { id } => ClientPacketV::ReportId { id: id@ },
            ClientPacket::ReportSensors { soil_moisture, air_temperature, light_sensor, image_size } => ClientPacketV::ReportSensors {
                soil_moisture: *soil_moisture,
                air_temperature: *air_temperature,
                light_sensor: *light_sensor,
                image_size: *image_size,
            },
            ClientPacket::ImageFrame { frame_size, frame } => ClientPacketV::ImageFrame {
                frame_size: *frame_size,
                frame: frame@,
            },
        }
    }
}

/// Structural constraints every decoded device payload obeys: identifiers
/// are 64 single-byte characters and an image frame always carries a full
/// 128-byte chunk.
pub open spec fn wf_client_packet(p: ClientPacketV) -> bool {
    match p {
        ClientPacketV::ReportId { id } => id.len() == 64 && forall|i: int|
            0 <= i < 64 ==> (#[trigger] id[i] as int) < 256,
        ClientPacketV::ReportSensors { .. } => true,
        ClientPacketV::ImageFrame { frame_size, frame } => frame.len() == 128,
    }
}

/// Wire image of an identifier: one byte per character.
pub open spec fn chars_to_bytes(s: Seq<char>) -> Seq<u8> {
    s.map(|i: int, c: char| (c as u32) as u8)
}

/// Characters read back from an identifier's wire bytes.
pub open spec fn bytes_to_chars(s: Seq<u8>) -> Seq<char> {
    s.map(|i: int, b: u8| b as char)
}

/// Identifier characters below 256 survive the trip onto the wire and back.
pub proof fn lemma_chars_bytes_round_trip(s: Seq<char>)
    requires
        forall|i: int| 0 <= i < s.len() ==> (#[trigger] s[i] as int) < 256,
    ensures
        bytes_to_chars(chars_to_bytes(s)) == s,
{
    assert forall|i: int| 0 <= i < s.len() implies bytes_to_chars(chars_to_bytes(s))[i] == s[i] by {
        let c = s[i];
        assert((c as int) < 256);
        vstd::utf8::char_u32_cast(c, c as u32);
        let b = (c as u32) as u8;
        assert((b as char) == ((b as u32) as char));
    }
    assert(bytes_to_chars(chars_to_bytes(s)) =~= s);
}

/// Wire bytes always survive being read as characters and written back.
pub proof fn lemma_bytes_chars_round_trip(s: Seq<u8>)
    ensures
        chars_to_bytes(bytes_to_chars(s)) == s,
        forall|i: int| 0 <= i < s.len() ==> (#[trigger] bytes_to_chars(s)[i] as int) < 256,
{
    assert(chars_to_bytes(bytes_to_chars(s)) =~= s);
}

/// Server-to-device payloads.
#[derive(Debug, Clone, PartialEq, Eq)]
pub enum ServerPacket {
    UpdateCooler { status: bool },
    WaterPulse,
    ResponseId { id: Vec<char> },
}

/// Mathematical image of a `ServerPacket`.
pub enum ServerPacketV {
    UpdateCooler { status: bool },
    WaterPulse,
    ResponseId { id: Seq<char> },
}

impl View for ServerPacket {
    type V = ServerPacketV;

    open spec fn view(&self) -> ServerPacketV {
        match self {
            ServerPacket::UpdateCooler { status } => ServerPacketV::UpdateCooler {
                status: *status,
            },
            ServerPacket::WaterPulse => ServerPacketV::WaterPulse,
            ServerPacket::ResponseId { id } => ServerPacketV::ResponseId { id: id@ },
        }
    }
}

/// Structural constraints on server payloads, mirroring the device side.
pub open spec fn wf_server_packet(p: ServerPacketV) -> bool {
    match p {
        ServerPacketV::UpdateCooler { .. } => true,
        ServerPacketV::WaterPulse => true,
        ServerPacketV::ResponseId { id } => id.len() == 64 && forall|i: int|
            0 <= i < 64 ==> (#[trigger] id[i] as int) < 256,
    }
}

/// View of a sequence of server packets.
pub open spec fn server_packets_view(ps: Seq<ServerPacket>) -> Seq<ServerPacketV> {
    ps.map(|i: int, p: ServerPacket| p@)
}

/// Completed events a connection hands to the dispatcher.  `sender` is the
/// token under which the runtime reaches that connection's outbound queue.
#[derive(Debug, Clone, PartialEq, Eq)]
pub enum ClientReceiverCommand {
    ReportClient { id: Vec<char>, sender: u64 },
    ReportSensors {
        id: Vec<char>,
        soil_moisture: u16,
        air_temperature: u16,
        light_sensor: u16,
        image: Vec<u8>,
    },
}

/// Mathematical image of a `ClientReceiverCommand`.
pub enum ClientReceiverCommandV {
    ReportClient { id: Seq<char>, sender: u64 },
    ReportSensors {
        id: Seq<char>,
        soil_moisture: u16,
        air_temperature: u16,
        light_sensor: u16,
        image: Seq<u8>,
    },
}

impl View for ClientReceiverCommand {
    type V = ClientReceiverCommandV;

    open spec fn view(&self) -> ClientReceiverCommandV {
        match self {
            ClientReceiverCommand::ReportClient { id, sender } => ClientReceiverCommandV::ReportClient {
                id: id@,
                sender: *sender,
            },
            ClientReceiverCommand::ReportSensors {
                id,
                soil_moisture,
                air_temperature,
                light_sensor,
                image,
            } => ClientReceiverCommandV::ReportSensors {
                id: id@,
                soil_moisture: *soil_moisture,
                air_temperature: *air_temperature,
                light_sensor: *light_sensor,
                image: image@,
            },
        }
    }
}

/// Requests the dispatcher's mailbox accepts.
#[derive(Debug, Clone, PartialEq, Eq)]
pub enum ServiceRequest {
    Pair { access_token: Vec<char>, device_id: Vec<char> },
    Image,
    ReceiverCommand(ClientReceiverCommand),
}

/// Mathematical image of a `ServiceRequest`.
pub enum ServiceRequestV {
    Pair { access_token: Seq<char>, device_id: Seq<char> },
    Image,
    ReceiverCommand(ClientReceiverCommandV),
}

impl View for ServiceRequest {
    type V = ServiceRequestV;

    open spec fn view(&self) -> ServiceRequestV {
        match self {
            ServiceRequest::Pair { access_token, device_id } => ServiceRequestV::Pair {
                access_token: access_token@,
                device_id: device_id@,
            },
            ServiceRequest::Image => ServiceRequestV::Image,
            ServiceRequest::ReceiverCommand(c) => ServiceRequestV::ReceiverCommand(c@),
        }
    }
}

#[derive(Debug, Clone, PartialEq, Eq)]
pub enum ServiceResponse {
    Image(Option<Vec<u8>>),
    Empty,
}

/// The dispatcher itself never fails a request; no value of this type is
/// ever constructed here.
#[derive(Debug, Clone, Copy, PartialEq, Eq, Structural)]
pub struct ServiceError;

/// One live session: the device's control target and the token of the
/// connection's outbound queue.
#[derive(Debug, Clone, Copy, PartialEq, Eq, Structural)]
pub struct ServerClient {
    pub target_temperature: i32,
    pub sender: u64,
}

/// First session whose device id matches, scanning left to right.
pub open spec fn lookup(cs: Seq<(Seq<char>, ServerClient)>, id: Seq<char>) -> Option<ServerClient>
    decreases cs.len(),
{
    if cs.len() == 0 {
        None
    } else if cs[0].0 == id {
        Some(cs[0].1)
    } else {
        lookup(cs.drop_first(), id)
    }
}

/// Soil moisture strictly above this level triggers an irrigation pulse.
pub open spec fn spec_moisture_threshold() -> u16 {
    500
}

/// The commands a sensor event draws for a device with control target
/// `target`: first the cooler decision (on exactly when the reported air
/// temperature is strictly below the target), then an irrigation pulse
/// exactly when soil moisture exceeds the threshold.
pub open spec fn policy(target: int, soil_moisture: u16, air_temperature: u16) -> Seq<
    ServerPacketV,
> {
    let cooler = seq![
        ServerPacketV::UpdateCooler { status: (air_temperature as int) < target },
    ];
    if soil_moisture > spec_moisture_threshold() {
        cooler.push(ServerPacketV::WaterPulse)
    } else {
        cooler
    }
}

/// The dispatcher: the table of live sessions, keyed by device id, plus
/// the stored test image.
pub struct Service {
    clients: Vec<(Vec<char>, ServerClient)>,
    test_image: Option<Vec<u8>>,
}

impl Service {
    /// The session table as a sequence of (device id, session) pairs.
    pub closed spec fn clients_view(&self) -> Seq<(Seq<char>, ServerClient)> {
        self.clients@.map(|i: int, e: (Vec<char>, ServerClient)| (e.0@, e.1))
    }

    pub closed spec fn image_view(&self) -> Option<Seq<u8>> {
        match self.test_image {
            Some(v) => Some(v@),
            None => None,
        }
    }

    /// No device id occurs twice in the table.
    pub open spec fn wf(&self) -> bool {
        forall|i: int, j: int|
            0 <= i < j < self.clients_view().len() ==> (#[trigger] self.clients_view()[i]).0 != (
            #[trigger] self.clients_view()[j]).0
    }

    pub fn new() -> (r: Self)
        ensures
            r.wf(),
            r.clients_view() =~= Seq::<(Seq<char>, ServerClient)>::empty(),
            r.image_view() is None,
    {
        Self { clients: Vec::new(), test_image: None }
    }

    /// Index of the session for `id`, if any.
    fn find_client(&self, id: &Vec<char>) -> (r: Option<usize>)
        ensures
            match r {
                Some(i) => 0 <= i < self.clients_view().len() && self.clients_view()[i as int].0
                    == id@ && lookup(self.clients_view(), id@) == Some(
                    self.clients_view()[i as int].1,
                ),
                None => lookup(self.clients_view(), id@) is None,
            },
    {
        let ghost cs = self.clients_view();
        let mut i: usize = 0;
        while i < self.clients.len()
            invariant
                0 <= i <= self.clients.len(),
                cs == self.clients_view(),
                cs.len() == self.clients@.len(),
                forall|j: int| 0 <= j < i ==> (#[trigger] cs[j]).0 != id@,
            decreases self.clients.len() - i,
        {
            if vec_char_eq(&self.clients[i].0, id) {
                proof {
                    lemma_lookup_at_index(cs, id@, i as int);
                }
                return Some(i);
            }
            i = i + 1;
        }
        proof {
            lemma_lookup_absent(cs, id@);
        }
        None
    }

    /// Registers (or replaces) the session for `id`.  A registry failure
    /// degrades to control target 0 rather than failing the request.
    fn register_client(&mut self, id: Vec<char>, sender: u64, temperature: Result<
        i32,
        DBServiceError,
    >)
        requires
            old(self).wf(),
        ensures
            final(self).wf(),
            final(self).image_view() == old(self).image_view(),
            lookup(final(self).clients_view(), id@) == Some(
                ServerClient {
                    target_temperature: match temperature {
                        Ok(t) => t,
                        Err(_) => 0,
                    },
                    sender,
                },
            ),
            forall|id2: Seq<char>|
                id2 != id@ ==> #[trigger] lookup(final(self).clients_view(), id2) == lookup(
                    old(self).clients_view(),
                    id2,
                ),
    {
        let target_temperature = match temperature {
            Ok(t) => t,
            Err(_) => 0,
        };
        let entry = ServerClient { target_temperature, sender };
        let ghost cs = self.clients_view();
        match self.find_client(&id) {
            Some(i) => {
                let ghost iv = i as int;
                self.clients[i].1 = entry;
                proof {
                    assert(self.clients_view() =~= cs.update(iv, (id@, entry)));
                    lemma_lookup_update(cs, id@, iv, entry);
                }
            },
            None => {
                let ghost idv = id@;
                self.clients.push((id, entry));
                proof {
                    assert(self.clients_view() =~= cs.push((idv, entry)));
                    lemma_lookup_push(cs, idv, entry);
                    assert forall|i: int, j: int|
                        0 <= i < j < self.clients_view().len() implies (
                    #[trigger] self.clients_view()[i]).0 != (#[trigger] self.clients_view()[j]).0 by {
                        if j == cs.len() as int {
                            lemma_lookup_absent_index(cs, idv, i);
                        }
                    }
                }
            },
        }
    }

    /// Routes the control decisions for one completed sensor event: no
    /// commands for a device that was never registered, otherwise the
    /// policy's commands for that device's control target, addressed to
    /// its connection's outbound queue.
    pub fn process_sensor(
        &mut self,
        id: Vec<char>,
        soil_moisture: u16,
        air_temperature: u16,
        light_sensor: u16,
        image: Vec<u8>,
    ) -> (r: Option<(u64, Vec<ServerPacket>)>)
        requires
            old(self).wf(),
        ensures
            final(self).wf(),
            final(self).clients_view() == old(self).clients_view(),
            final(self).image_view() == old(self).image_view(),
            match lookup(old(self).clients_view(), id@) {
                Some(c) => r matches Some((token, ps)) && token == c.sender && server_packets_view(
                    ps@,
                ) == policy(c.target_temperature as int, soil_moisture, air_temperature),
                None => r is None,
            },
    {
        let client = match self.find_client(&id) {
            Some(i) => self.clients[i].1,
            None => {
                return None;
            },
        };
        let mut packets: Vec<ServerPacket> = Vec::new();
        packets.push(
            ServerPacket::UpdateCooler {
                status: (air_temperature as i32) < client.target_temperature,
            },
        );
        if soil_moisture > 500 {
            packets.push(ServerPacket::WaterPulse);
        }
        proof {
            assert(server_packets_view(packets@) =~= policy(
                client.target_temperature as int,
                soil_moisture,
                air_temperature,
            ));
        }
        Some((client.sender, packets))
    }

    /// Handles one mailbox command from a connection.  `temperature` is
    /// the registry's answer for the device being registered; it is only
    /// read for a `ReportClient` command.
    pub fn process_command(&mut self, command: ClientReceiverCommand, temperature: Result<
        i32,
        DBServiceError,
    >) -> (r: Option<(u64, Vec<ServerPacket>)>)
        requires
            old(self).wf(),
        ensures
            final(self).wf(),
            final(self).image_view() == old(self).image_view(),
            match command@ {
                ClientReceiverCommandV::ReportClient { id, sender } => r is None && lookup(
                    final(self).clients_view(),
                    id,
                ) == Some(
                    ServerClient {
                        target_temperature: match temperature {
                            Ok(t) => t,
                            Err(_) => 0,
                        },
                        sender,
                    },
                ) && forall|id2: Seq<char>|
                    id2 != id ==> #[trigger] lookup(final(self).clients_view(), id2) == lookup(
                        old(self).clients_view(),
                        id2,
                    ),
                ClientReceiverCommandV::ReportSensors {
                    id,
                    soil_moisture,
                    air_temperature,
                    light_sensor,
                    image,
                } => final(self).clients_view() == old(self).clients_view() && match lookup(
                    old(self).clients_view(),
                    id,
                ) {
                    Some(c) => r matches Some((token, ps)) && token == c.sender
                        && server_packets_view(ps@) == policy(
                        c.target_temperature as int,
                        soil_moisture,
                        air_temperature,
                    ),
                    None => r is None,
                },
            },
    {
        match command {
            ClientReceiverCommand::ReportClient { id, sender } => {
                self.register_client(id, sender, temperature);
                None
            },
            ClientReceiverCommand::ReportSensors {
                id,
                soil_moisture,
                air_temperature,
                light_sensor,
                image,
            } => self.process_sensor(id, soil_moisture, air_temperature, light_sensor, image),
        }
    }

    /// The stored test image, if any.
    fn get_image(&self) -> (r: ServiceResponse)
        ensures
            r matches ServiceResponse::Image(img) && (match (img, self.image_view()) {
                (Some(v), Some(s)) => v@ == s,
                (None, None) => true,
                _ => false,
            }),
    {
        match &self.test_image {
            Some(v) => {
                let c = v.clone();
                proof {
                    assert(c@ =~= v@);
                }
                ServiceResponse::Image(Some(c))
            },
            None => ServiceResponse::Image(None),
        }
    }

    /// The dispatcher's processing function: one mailbox request in, one
    /// reply out, plus any commands to forward to a connection's queue.
    pub fn process(&mut self, data: ServiceRequest, temperature: Result<i32, DBServiceError>) -> (r:
        (Result<ServiceResponse, ServiceError>, Option<(u64, Vec<ServerPacket>)>))
        requires
            old(self).wf(),
        ensures
            final(self).wf(),
            final(self).image_view() == old(self).image_view(),
            match data@ {
                ServiceRequestV::Pair { .. } => r.0 matches Ok(ServiceResponse::Empty) && r.1
                    is None && final(self).clients_view() == old(self).clients_view(),
                ServiceRequestV::Image => (r.0 matches Ok(ServiceResponse::Image(img)) && match (
                    img,
                    old(self).image_view(),
                ) {
                    (Some(v), Some(s)) => v@ == s,
                    (None, None) => true,
                    _ => false,
                }) && r.1 is None && final(self).clients_view() == old(self).clients_view(),
                ServiceRequestV::ReceiverCommand(c) => r.0 matches Ok(ServiceResponse::Empty)
                    && match c {
                    ClientReceiverCommandV::ReportClient { id, sender } => r.1 is None && lookup(
                        final(self).clients_view(),
                        id,
                    ) == Some(
                        ServerClient {
                            target_temperature: match temperature {
                                Ok(t) => t,
                                Err(_) => 0,
                            },
                            sender,
                        },
                    ) && forall|id2: Seq<char>|
                        id2 != id ==> #[trigger] lookup(final(self).clients_view(), id2) == lookup(
                            old(self).clients_view(),
                            id2,
                        ),
                    ClientReceiverCommandV::ReportSensors {
                        id,
                        soil_moisture,
                        air_temperature,
                        light_sensor,
                        image,
                    } => final(self).clients_view() == old(self).clients_view() && match lookup(
                        old(self).clients_view(),
                        id,
                    ) {
                        Some(c2) => r.1 matches Some((token, ps)) && token == c2.sender
                            && server_packets_view(ps@) == policy(
                            c2.target_temperature as int,
                            soil_moisture,
                            air_temperature,
                        ),
                        None => r.1 is None,
                    },
                },
            },
    {
        match data {
            ServiceRequest::Pair { access_token, device_id } => (Ok(ServiceResponse::Empty), None),
            ServiceRequest::Image => (Ok(self.get_image()), None),
            ServiceRequest::ReceiverCommand(command) => {
                let out = self.process_command(command, temperature);
                (Ok(ServiceResponse::Empty), out)
            },
        }
    }
}

/// The table without the sessions that a given connection owned.
pub open spec fn drop_sender(cs: Seq<(Seq<char>, ServerClient)>, sender: u64) -> Seq<
    (Seq<char>, ServerClient),
>
    decreases cs.len(),
{
    if cs.len() == 0 {
        Seq::empty()
    } else {
        let rest = drop_sender(cs.drop_first(), sender);
        if cs[0].1.sender == sender {
            rest
        } else {
            seq![cs[0]] + rest
        }
    }
}

impl Service {
    /// Session teardown: removes every table entry owned by the
    /// connection with this token, so that no future policy decision
    /// targets a dead outbound queue.  Any other device's session is
    /// untouched.
    pub fn remove_connection(&mut self, sender: u64)
        requires
            old(self).wf(),
        ensures
            final(self).wf(),
            final(self).image_view() == old(self).image_view(),
            final(self).clients_view() == drop_sender(old(self).clients_view(), sender),
            forall|id: Seq<char>|
                #[trigger] lookup(final(self).clients_view(), id) == (match lookup(
                    old(self).clients_view(),
                    id,
                ) {
                    Some(c) => if c.sender == sender {
                        None
                    } else {
                        Some(c)
                    },
                    None => None,
                }),
    {
        let ghost cs = self.clients_view();
        let mut kept: Vec<(Vec<char>, ServerClient)> = Vec::new();
        let mut i: usize = 0;
        while i < self.clients.len()
            invariant
                0 <= i <= self.clients@.len(),
                cs == self.clients_view(),
                cs.len() == self.clients@.len(),
                kept@.map(|k: int, e: (Vec<char>, ServerClient)| (e.0@, e.1)) == drop_sender(
                    cs.subrange(0, i as int),
                    sender,
                ),
            decreases self.clients@.len() - i,
        {
            let ghost prefix = cs.subrange(0, i as int);
            if self.clients[i].1.sender != sender {
                let id = self.clients[i].0.clone();
                proof {
                    assert(id@ =~= cs[i as int].0);
                }
                kept.push((id, self.clients[i].1));
            }
            proof {
                lemma_drop_sender_concat(prefix, seq![cs[i as int]], sender);
                assert(prefix + seq![cs[i as int]] =~= cs.subrange(0, i as int + 1));
                assert(seq![cs[i as int]].drop_first() =~= Seq::<(Seq<char>, ServerClient)>::empty());
                assert(drop_sender(Seq::<(Seq<char>, ServerClient)>::empty(), sender)
                    =~= Seq::<(Seq<char>, ServerClient)>::empty());
                assert(drop_sender(seq![cs[i as int]], sender) =~= (
                if cs[i as int].1.sender == sender {
                    Seq::<(Seq<char>, ServerClient)>::empty()
                } else {
                    seq![cs[i as int]]
                }));
                assert(kept@.map(|k: int, e: (Vec<char>, ServerClient)| (e.0@, e.1)) =~= drop_sender(
                    cs.subrange(0, i as int + 1),
                    sender,
                ));
            }
            i = i + 1;
        }
        self.clients = kept;
        proof {
            assert(cs.subrange(0, cs.len() as int) =~= cs);
            lemma_drop_sender_wf(cs, sender);
            assert forall|id: Seq<char>| #[trigger] lookup(self.clients_view(), id) == (match lookup(
                cs,
                id,
            ) {
                Some(c) => if c.sender == sender {
                    None
                } else {
                    Some(c)
                },
                None => None,
            }) by {
                lemma_lookup_drop_sender(cs, sender, id);
            }
        }
    }
}

/// `drop_sender` distributes over concatenation.
proof fn lemma_drop_sender_concat(
    a: Seq<(Seq<char>, ServerClient)>,
    b: Seq<(Seq<char>, ServerClient)>,
    sender: u64,
)
    ensures
        drop_sender(a + b, sender) == drop_sender(a, sender) + drop_sender(b, sender),
    decreases a.len(),
{
    if a.len() == 0 {
        assert(a + b =~= b);
        assert(drop_sender(a, sender) + drop_sender(b, sender) =~= drop_sender(b, sender));
    } else {
        lemma_drop_sender_concat(a.drop_first(), b, sender);
        assert((a + b).drop_first() =~= a.drop_first() + b);
        assert((a + b)[0] == a[0]);
        if a[0].1.sender != sender {
            assert(seq![a[0]] + (drop_sender(a.drop_first(), sender) + drop_sender(b, sender))
                =~= (seq![a[0]] + drop_sender(a.drop_first(), sender)) + drop_sender(b, sender));
        }
    }
}

/// A removed table is still a table: every id it can find, the full table
/// could find too.
proof fn lemma_drop_sender_subset(cs: Seq<(Seq<char>, ServerClient)>, sender: u64, id: Seq<char>)
    requires
        lookup(drop_sender(cs, sender), id) is Some,
    ensures
        lookup(cs, id) is Some,
    decreases cs.len(),
{
    if cs.len() > 0 {
        let rest = drop_sender(cs.drop_first(), sender);
        if cs[0].1.sender == sender {
            lemma_drop_sender_subset(cs.drop_first(), sender, id);
        } else {
            let ds = seq![cs[0]] + rest;
            if ds[0].0 != id {
                assert(ds.drop_first() =~= rest);
                lemma_drop_sender_subset(cs.drop_first(), sender, id);
            }
        }
    }
}

/// Removal keeps the ids unique.
proof fn lemma_drop_sender_wf(cs: Seq<(Seq<char>, ServerClient)>, sender: u64)
    requires
        forall|i: int, j: int|
            0 <= i < j < cs.len() ==> (#[trigger] cs[i]).0 != (#[trigger] cs[j]).0,
    ensures
        ({
            let ds = drop_sender(cs, sender);
            forall|i: int, j: int|
                0 <= i < j < ds.len() ==> (#[trigger] ds[i]).0 != (#[trigger] ds[j]).0
        }),
    decreases cs.len(),
{
    if cs.len() > 0 {
        let tail = cs.drop_first();
        assert forall|i: int, j: int|
            0 <= i < j < tail.len() implies (#[trigger] tail[i]).0 != (#[trigger] tail[j]).0 by {
            assert(tail[i] == cs[i + 1]);
            assert(tail[j] == cs[j + 1]);
        }
        lemma_drop_sender_wf(tail, sender);
        let rest = drop_sender(tail, sender);
        if cs[0].1.sender != sender {
            let ds = seq![cs[0]] + rest;
            assert forall|i: int, j: int|
                0 <= i < j < ds.len() implies (#[trigger] ds[i]).0 != (#[trigger] ds[j]).0 by {
                if i == 0 {
                    // the head's id does not recur: it is absent from the
                    // tail, hence from anything the tail could find
                    if ds[j].0 == cs[0].0 {
                        assert(rest[j - 1] == ds[j]);
                        lemma_lookup_at_index_gen(rest, ds[j].0, j - 1);
                        lemma_drop_sender_subset(tail, sender, cs[0].0);
                        lemma_lookup_index_sound(tail, cs[0].0);
                        let k = lookup_index(tail, cs[0].0);
                        assert(tail[k] == cs[k + 1]);
                        assert(false);
                    }
                } else {
                    assert(ds[i] == rest[i - 1]);
                    assert(ds[j] == rest[j - 1]);
                }
            }
        }
    }
}

/// Index of the first match, defined when `lookup` succeeds.
spec fn lookup_index(cs: Seq<(Seq<char>, ServerClient)>, id: Seq<char>) -> int
    decreases cs.len(),
{
    if cs.len() == 0 {
        0
    } else if cs[0].0 == id {
        0
    } else {
        1 + lookup_index(cs.drop_first(), id)
    }
}

/// When `lookup` succeeds, `lookup_index` points at a matching entry.
proof fn lemma_lookup_index_sound(cs: Seq<(Seq<char>, ServerClient)>, id: Seq<char>)
    requires
        lookup(cs, id) is Some,
    ensures
        0 <= lookup_index(cs, id) < cs.len(),
        cs[lookup_index(cs, id)].0 == id,
    decreases cs.len(),
{
    if cs.len() > 0 && cs[0].0 != id {
        lemma_lookup_index_sound(cs.drop_first(), id);
        assert(cs[1 + lookup_index(cs.drop_first(), id)] == cs.drop_first()[lookup_index(
            cs.drop_first(),
            id,
        )]);
    }
}

/// A weaker form of `lemma_lookup_at_index` that needs no first-match
/// hypothesis: an entry at `i` means `lookup` finds something.
proof fn lemma_lookup_at_index_gen(cs: Seq<(Seq<char>, ServerClient)>, id: Seq<char>, i: int)
    requires
        0 <= i < cs.len(),
        cs[i].0 == id,
    ensures
        lookup(cs, id) is Some,
    decreases i,
{
    if cs[0].0 != id {
        assert(cs.drop_first()[i - 1] == cs[i]);
        lemma_lookup_at_index_gen(cs.drop_first(), id, i - 1);
    }
}

/// What removal does to each id's session: the removed connection's ids
/// vanish, every other id keeps its session.
proof fn lemma_lookup_drop_sender(cs: Seq<(Seq<char>, ServerClient)>, sender: u64, id: Seq<char>)
    requires
        forall|i: int, j: int|
            0 <= i < j < cs.len() ==> (#[trigger] cs[i]).0 != (#[trigger] cs[j]).0,
    ensures
        lookup(drop_sender(cs, sender), id) == (match lookup(cs, id) {
            Some(c) => if c.sender == sender {
                None
            } else {
                Some(c)
            },
            None => None,
        }),
    decreases cs.len(),
{
    if cs.len() > 0 {
        let tail = cs.drop_first();
        assert forall|i: int, j: int|
            0 <= i < j < tail.len() implies (#[trigger] tail[i]).0 != (#[trigger] tail[j]).0 by {
            assert(tail[i] == cs[i + 1]);
            assert(tail[j] == cs[j + 1]);
        }
        lemma_lookup_drop_sender(tail, sender, id);
        let rest = drop_sender(tail, sender);
        if cs[0].1.sender == sender {
            if cs[0].0 == id {
                // the head was this id's (only) session and it is removed
                if lookup(rest, id) is Some {
                    lemma_drop_sender_subset(tail, sender, id);
                    lemma_lookup_index_sound(tail, id);
                    assert(tail[lookup_index(tail, id)] == cs[1 + lookup_index(tail, id)]);
                    assert(false);
                }
            }
        } else {
            let ds = seq![cs[0]] + rest;
            assert(ds[0] == cs[0]);
            assert(ds.drop_first() =~= rest);
        }
    }
}

/// Character-for-character equality of two id buffers.
pub fn vec_char_eq(a: &Vec<char>, b: &Vec<char>) -> (r: bool)
    ensures
        r == (a@ == b@),
{
    if a.len() != b.len() {
        proof {
            assert(a@.len() != b@.len());
        }
        return false;
    }
    let mut i: usize = 0;
    while i < a.len()
        invariant
            0 <= i <= a@.len(),
            a@.len() == b@.len(),
            forall|j: int| 0 <= j < i ==> a@[j] == b@[j],
        decreases a@.len() - i,
    {
        if a[i] != b[i] {
            return false;
        }
        i = i + 1;
    }
    proof {
        assert(a@ =~= b@);
    }
    true
}

/// `lookup` finds the entry at `i` when no earlier entry matches its id.
proof fn lemma_lookup_at_index(cs: Seq<(Seq<char>, ServerClient)>, id: Seq<char>, i: int)
    requires
        0 <= i < cs.len(),
        cs[i].0 == id,
        forall|j: int| 0 <= j < i ==> (#[trigger] cs[j]).0 != id,
    ensures
        lookup(cs, id) == Some(cs[i].1),
    decreases i,
{
    if i > 0 {
        lemma_lookup_at_index(cs.drop_first(), id, i - 1);
    }
}

/// `lookup` fails when no entry matches.
proof fn lemma_lookup_absent(cs: Seq<(Seq<char>, ServerClient)>, id: Seq<char>)
    requires
        forall|j: int| 0 <= j < cs.len() ==> (#[trigger] cs[j]).0 != id,
    ensures
        lookup(cs, id) is None,
    decreases cs.len(),
{
    if cs.len() > 0 {
        lemma_lookup_absent(cs.drop_first(), id);
    }
}

/// Conversely, an absent id means every entry differs from it.
proof fn lemma_lookup_absent_index(cs: Seq<(Seq<char>, ServerClient)>, id: Seq<char>, i: int)
    requires
        lookup(cs, id) is None,
        0 <= i < cs.len(),
    ensures
        cs[i].0 != id,
    decreases i,
{
    if i > 0 {
        lemma_lookup_absent_index(cs.drop_first(), id, i - 1);
    }
}

/// Replacing the matching entry changes that id's lookup and no other.
proof fn lemma_lookup_update(
    cs: Seq<(Seq<char>, ServerClient)>,
    id: Seq<char>,
    i: int,
    c: ServerClient,
)
    requires
        0 <= i < cs.len(),
        cs[i].0 == id,
        forall|j: int| 0 <= j < i ==> (#[trigger] cs[j]).0 != id,
    ensures
        lookup(cs.update(i, (id, c)), id) == Some(c),
        forall|id2: Seq<char>|
            id2 != id ==> #[trigger] lookup(cs.update(i, (id, c)), id2) == lookup(cs, id2),
    decreases i,
{
    let cs2 = cs.update(i, (id, c));
    if i == 0 {
        assert(cs2[0].0 == id);
        assert forall|id2: Seq<char>| id2 != id implies #[trigger] lookup(cs2, id2) == lookup(
            cs,
            id2,
        ) by {
            assert(cs2.drop_first() =~= cs.drop_first());
        }
    } else {
        lemma_lookup_update(cs.drop_first(), id, i - 1, c);
        assert(cs2.drop_first() =~= cs.drop_first().update(i - 1, (id, c)));
        assert(cs2[0] == cs[0]);
        assert(lookup(cs2, id) == lookup(cs2.drop_first(), id));
        assert forall|id2: Seq<char>| id2 != id implies #[trigger] lookup(cs2, id2) == lookup(
            cs,
            id2,
        ) by {
            assert(lookup(cs.drop_first().update(i - 1, (id, c)), id2) == lookup(
                cs.drop_first(),
                id2,
            ));
        }
    }
}

/// Appending a fresh entry adds that id's lookup and changes no other.
proof fn lemma_lookup_push(cs: Seq<(Seq<char>, ServerClient)>, id: Seq<char>, c: ServerClient)
    requires
        lookup(cs, id) is None,
    ensures
        lookup(cs.push((id, c)), id) == Some(c),
        forall|id2: Seq<char>|
            id2 != id ==> #[trigger] lookup(cs.push((id, c)), id2) == lookup(cs, id2),
    decreases cs.len(),
{
    let cs2 = cs.push((id, c));
    if cs.len() == 0 {
        assert(cs2[0].0 == id);
        assert(cs2.drop_first() =~= Seq::<(Seq<char>, ServerClient)>::empty());
        assert forall|id2: Seq<char>| id2 != id implies #[trigger] lookup(cs2, id2) == lookup(
            cs,
            id2,
        ) by {
            assert(lookup(cs2, id2) == lookup(cs2.drop_first(), id2));
        }
    } else {
        lemma_lookup_push(cs.drop_first(), id, c);
        assert(cs2.drop_first() =~= cs.drop_first().push((id, c)));
        assert(cs2[0] == cs[0]);
        assert(lookup(cs.drop_first().push((id, c)), id) == Some(c));
        assert(lookup(cs2, id) == lookup(cs2.drop_first(), id));
        assert forall|id2: Seq<char>| id2 != id implies #[trigger] lookup(cs2, id2) == lookup(
            cs,
            id2,
        ) by {
            assert(lookup(cs.drop_first().push((id, c)), id2) == lookup(cs.drop_first(), id2));
        }
    }
}

} // verus!

