//! Packet framing and the two direction codecs: header layout, id
//! validation, exact payload sizes, round trips, and the frame length
//! invariant.

use svf_server::service::farm_service::client::{parse_client_frame, ClientPacketId};
use svf_server::service::farm_service::packet::{Packet, PacketError, PacketHeader};
use svf_server::service::farm_service::client::Client;
use svf_server::service::farm_service::{ClientPacket, ServerPacket};
use svf_server::utils::buffer_writer::BufferWriter;

fn device_id_chars(c: char) -> Vec<char> {
    std::iter::repeat(c).take(64).collect()
}

#[test]
fn header_from_bytes_reads_length_then_id() {
    let bytes = [14u8, 0, 0, 0, 1, 0, 0, 0];
    let header = PacketHeader::from_bytes(&bytes).unwrap();
    assert_eq!(header.length(), 14);
    assert_eq!(header.id(), 1);
}

#[test]
fn header_from_short_buffer_is_rejected() {
    let bytes = [14u8, 0, 0];
    assert!(matches!(
        PacketHeader::from_bytes(&bytes),
        Err(PacketError::InvalidPacketLength)
    ));
}

#[test]
fn header_to_bytes_round_trip() {
    let bytes = [136u8, 0, 0, 0, 2, 0, 0, 0];
    let header = PacketHeader::from_bytes(&bytes).unwrap();
    assert_eq!(header.to_bytes(), bytes.to_vec());
}

#[test]
fn unknown_packet_id_is_rejected() {
    let r = Packet::<ClientPacketId>::new(3, Vec::new());
    assert!(matches!(r, Err(PacketError::InvalidPacketId)));
}

#[test]
fn decode_sensors_exact_bytes() {
    let mut w = BufferWriter::new(Vec::new());
    w.write_u16(600);
    w.write_u16(10);
    w.write_u16(5);
    w.write_u64(4);
    let packet = Packet::<ClientPacketId>::new(1, w.into_vec()).unwrap();
    match packet.decode().unwrap() {
        ClientPacket::ReportSensors { soil_moisture, air_temperature, light_sensor, image_size } => {
            assert_eq!(soil_moisture, 600);
            assert_eq!(air_temperature, 10);
            assert_eq!(light_sensor, 5);
            assert_eq!(image_size, 4);
        },
        _ => panic!("wrong variant"),
    }
}

#[test]
fn decode_sensors_wrong_length_is_rejected() {
    let packet = Packet::<ClientPacketId>::new(1, vec![0u8; 13]).unwrap();
    assert!(matches!(packet.decode(), Err(PacketError::InvalidPacketLength)));
    let packet = Packet::<ClientPacketId>::new(1, vec![0u8; 15]).unwrap();
    assert!(matches!(packet.decode(), Err(PacketError::InvalidPacketLength)));
}

#[test]
fn decode_report_id_maps_bytes_to_chars() {
    let packet = Packet::<ClientPacketId>::new(0, vec![b'D'; 64]).unwrap();
    match packet.decode().unwrap() {
        ClientPacket::ReportId { id } => assert_eq!(id, device_id_chars('D')),
        _ => panic!("wrong variant"),
    }
}

#[test]
fn decode_report_id_short_is_rejected() {
    let packet = Packet::<ClientPacketId>::new(0, vec![b'D'; 63]).unwrap();
    assert!(matches!(packet.decode(), Err(PacketError::InvalidPacketLength)));
}

#[test]
fn decode_frame_reads_size_and_chunk() {
    let mut payload = vec![0u8; 136];
    payload[0] = 4; // frame_size = 4, little-endian
    payload[8] = 1;
    payload[9] = 2;
    payload[10] = 3;
    payload[11] = 4;
    let packet = Packet::<ClientPacketId>::new(2, payload).unwrap();
    match packet.decode().unwrap() {
        ClientPacket::ImageFrame { frame_size, frame } => {
            assert_eq!(frame_size, 4);
            assert_eq!(frame.len(), 128);
            assert_eq!(&frame[0..4], &[1, 2, 3, 4]);
        },
        _ => panic!("wrong variant"),
    }
}

#[test]
fn decode_frame_truncated_is_rejected() {
    let packet = Packet::<ClientPacketId>::new(2, vec![0u8; 135]).unwrap();
    assert!(matches!(packet.decode(), Err(PacketError::InvalidPacketLength)));
}

#[test]
fn parse_client_frame_complete() {
    let mut bytes = vec![14u8, 0, 0, 0, 1, 0, 0, 0];
    let mut w = BufferWriter::new(Vec::new());
    w.write_u16(600);
    w.write_u16(10);
    w.write_u16(5);
    w.write_u64(0);
    bytes.extend_from_slice(&w.into_vec());
    let (packet, consumed) = parse_client_frame(&bytes).unwrap();
    assert_eq!(consumed, 22);
    assert!(matches!(packet, ClientPacket::ReportSensors { soil_moisture: 600, .. }));
}

#[test]
fn parse_client_frame_truncated_payload_is_rejected() {
    // header declares 14 payload bytes but only 10 follow
    let mut bytes = vec![14u8, 0, 0, 0, 1, 0, 0, 0];
    bytes.extend_from_slice(&[0u8; 10]);
    assert!(parse_client_frame(&bytes).is_none());
}

#[test]
fn parse_client_frame_unknown_id_is_rejected() {
    let bytes = vec![0u8, 0, 0, 0, 9, 0, 0, 0];
    assert!(parse_client_frame(&bytes).is_none());
}

#[test]
fn server_frame_update_cooler() {
    let client = Client::new();
    let bytes = client.handle_server_packet(ServerPacket::UpdateCooler { status: true });
    assert_eq!(bytes, vec![1u8, 0, 0, 0, 0, 0, 0, 0, 1]);
    let bytes = client.handle_server_packet(ServerPacket::UpdateCooler { status: false });
    assert_eq!(bytes, vec![1u8, 0, 0, 0, 0, 0, 0, 0, 0]);
}

#[test]
fn server_frame_water_pulse_has_empty_payload() {
    let client = Client::new();
    let bytes = client.handle_server_packet(ServerPacket::WaterPulse);
    assert_eq!(bytes, vec![0u8, 0, 0, 0, 1, 0, 0, 0]);
}

#[test]
fn server_frame_response_id_carries_the_identifier() {
    let client = Client::new();
    let bytes = client.handle_server_packet(ServerPacket::ResponseId { id: device_id_chars('x') });
    assert_eq!(&bytes[0..8], &[64u8, 0, 0, 0, 2, 0, 0, 0]);
    assert_eq!(&bytes[8..], vec![b'x'; 64].as_slice());
}

#[test]
fn packet_error_messages() {
    assert_eq!(PacketError::InvalidPacketLength.message(), "Invalid packet length");
    assert_eq!(PacketError::InvalidPacketId.message(), "Invalid packet id");
}
