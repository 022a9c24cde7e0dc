//! The per-connection state machine: registration, image reassembly
//! across any number of frames, and dropped out-of-sequence packets.

use svf_server::service::farm_service::client::Client;
use svf_server::service::farm_service::{ClientPacket, ClientReceiverCommand};

fn device_id_chars(c: char) -> Vec<char> {
    std::iter::repeat(c).take(64).collect()
}

fn report_id(c: char) -> ClientPacket {
    ClientPacket::ReportId { id: device_id_chars(c) }
}

fn report_sensors(image_size: u64) -> ClientPacket {
    ClientPacket::ReportSensors {
        soil_moisture: 600,
        air_temperature: 10,
        light_sensor: 5,
        image_size,
    }
}

fn image_frame(data: &[u8]) -> ClientPacket {
    let mut frame = data.to_vec();
    frame.resize(128, 0);
    ClientPacket::ImageFrame { frame_size: data.len() as u64, frame }
}

#[test]
fn report_id_registers_the_connection() {
    let mut client = Client::new();
    let event = client.handle_client_packet(report_id('D'), 7);
    assert_eq!(
        event,
        Some(ClientReceiverCommand::ReportClient { id: device_id_chars('D'), sender: 7 })
    );
}

#[test]
fn single_frame_completes_the_image() {
    let mut client = Client::new();
    client.handle_client_packet(report_id('D'), 7);
    assert_eq!(client.handle_client_packet(report_sensors(4), 7), None);
    let event = client.handle_client_packet(image_frame(&[1, 2, 3, 4]), 7);
    assert_eq!(
        event,
        Some(ClientReceiverCommand::ReportSensors {
            id: device_id_chars('D'),
            soil_moisture: 600,
            air_temperature: 10,
            light_sensor: 5,
            image: vec![1, 2, 3, 4],
        })
    );
}

#[test]
fn split_upload_is_equivalent_to_single_frame() {
    // the same 10-byte image sent as one frame and as ten 1-byte frames
    let image: Vec<u8> = (1..=10).collect();

    let mut one = Client::new();
    one.handle_client_packet(report_id('D'), 1);
    one.handle_client_packet(report_sensors(10), 1);
    let single = one.handle_client_packet(image_frame(&image), 1);

    let mut many = Client::new();
    many.handle_client_packet(report_id('D'), 1);
    many.handle_client_packet(report_sensors(10), 1);
    let mut events = Vec::new();
    for b in &image {
        if let Some(e) = many.handle_client_packet(image_frame(&[*b]), 1) {
            events.push(e);
        }
    }
    assert_eq!(events.len(), 1);
    assert_eq!(single, Some(events.remove(0)));
    match single.unwrap() {
        ClientReceiverCommand::ReportSensors { image: got, .. } => assert_eq!(got, image),
        _ => panic!("wrong event"),
    }
}

#[test]
fn zero_length_image_completes_on_first_frame() {
    let mut client = Client::new();
    client.handle_client_packet(report_id('D'), 1);
    client.handle_client_packet(report_sensors(0), 1);
    let event = client.handle_client_packet(image_frame(&[]), 1);
    match event {
        Some(ClientReceiverCommand::ReportSensors { image, .. }) => assert!(image.is_empty()),
        _ => panic!("expected a completed event"),
    }
}

#[test]
fn stray_image_frame_is_dropped() {
    let mut client = Client::new();
    client.handle_client_packet(report_id('D'), 1);
    // no report pending: the frame must be discarded without effect
    assert_eq!(client.handle_client_packet(image_frame(&[9, 9]), 1), None);
    // a correctly sequenced report afterwards is unaffected
    client.handle_client_packet(report_sensors(2), 1);
    let event = client.handle_client_packet(image_frame(&[5, 6]), 1);
    match event {
        Some(ClientReceiverCommand::ReportSensors { image, .. }) => assert_eq!(image, vec![5, 6]),
        _ => panic!("expected a completed event"),
    }
}

#[test]
fn sensors_on_unidentified_connection_are_dropped() {
    let mut client = Client::new();
    assert_eq!(client.handle_client_packet(report_sensors(2), 1), None);
    // the frame that follows finds no pending report either
    assert_eq!(client.handle_client_packet(image_frame(&[5, 6]), 1), None);
}

#[test]
fn new_report_resets_the_partial_buffer() {
    let mut client = Client::new();
    client.handle_client_packet(report_id('D'), 1);
    client.handle_client_packet(report_sensors(4), 1);
    assert_eq!(client.handle_client_packet(image_frame(&[1, 2]), 1), None);
    // a fresh report discards the two partial bytes
    client.handle_client_packet(report_sensors(2), 1);
    let event = client.handle_client_packet(image_frame(&[8, 9]), 1);
    match event {
        Some(ClientReceiverCommand::ReportSensors { image, .. }) => assert_eq!(image, vec![8, 9]),
        _ => panic!("expected a completed event"),
    }
}
