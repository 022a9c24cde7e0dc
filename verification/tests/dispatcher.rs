//! The farm dispatcher: session registration, the control policy's
//! thresholds, unknown devices, and the full device round trip.

use svf_server::service::db_service::DBServiceError;
use svf_server::service::farm_service::client::Client;
use svf_server::service::farm_service::{
    ClientPacket, ClientReceiverCommand, ServerPacket, Service, ServiceRequest, ServiceResponse,
};

fn device_id_chars(c: char) -> Vec<char> {
    std::iter::repeat(c).take(64).collect()
}

fn register(service: &mut Service, c: char, sender: u64, target: i32) {
    let out = service.process_command(
        ClientReceiverCommand::ReportClient { id: device_id_chars(c), sender },
        Ok(target),
    );
    assert!(out.is_none());
}

fn sensor_event(c: char, soil: u16, air: u16) -> ClientReceiverCommand {
    ClientReceiverCommand::ReportSensors {
        id: device_id_chars(c),
        soil_moisture: soil,
        air_temperature: air,
        light_sensor: 5,
        image: Vec::new(),
    }
}

#[test]
fn cooler_turns_on_below_target() {
    let mut service = Service::new();
    register(&mut service, 'D', 3, 20);
    let (token, packets) = service
        .process_command(sensor_event('D', 0, 19), Err(DBServiceError::UnregisterdAccount))
        .unwrap();
    assert_eq!(token, 3);
    assert_eq!(packets, vec![ServerPacket::UpdateCooler { status: true }]);
}

#[test]
fn cooler_stays_off_at_target() {
    let mut service = Service::new();
    register(&mut service, 'D', 3, 20);
    let (_, packets) = service
        .process_command(sensor_event('D', 0, 20), Ok(0))
        .unwrap();
    assert_eq!(packets, vec![ServerPacket::UpdateCooler { status: false }]);
}

#[test]
fn moisture_above_threshold_pulses_water() {
    let mut service = Service::new();
    register(&mut service, 'D', 3, 20);
    let (_, packets) = service.process_command(sensor_event('D', 501, 25), Ok(0)).unwrap();
    assert_eq!(
        packets,
        vec![ServerPacket::UpdateCooler { status: false }, ServerPacket::WaterPulse]
    );
}

#[test]
fn moisture_at_threshold_does_not_pulse() {
    let mut service = Service::new();
    register(&mut service, 'D', 3, 20);
    let (_, packets) = service.process_command(sensor_event('D', 500, 25), Ok(0)).unwrap();
    assert_eq!(packets, vec![ServerPacket::UpdateCooler { status: false }]);
}

#[test]
fn unknown_device_draws_no_commands() {
    let mut service = Service::new();
    register(&mut service, 'D', 3, 20);
    assert!(service.process_command(sensor_event('E', 600, 10), Ok(0)).is_none());
}

#[test]
fn registry_failure_defaults_target_to_zero() {
    let mut service = Service::new();
    let out = service.process_command(
        ClientReceiverCommand::ReportClient { id: device_id_chars('D'), sender: 9 },
        Err(DBServiceError::UnregisterdAccount),
    );
    assert!(out.is_none());
    // target 0: air temperature 0 is not strictly below it
    let (token, packets) = service.process_command(sensor_event('D', 0, 0), Ok(0)).unwrap();
    assert_eq!(token, 9);
    assert_eq!(packets, vec![ServerPacket::UpdateCooler { status: false }]);
}

#[test]
fn re_registration_replaces_the_session() {
    let mut service = Service::new();
    register(&mut service, 'D', 3, 20);
    register(&mut service, 'D', 8, 30);
    let (token, packets) = service.process_command(sensor_event('D', 0, 25), Ok(0)).unwrap();
    assert_eq!(token, 8);
    assert_eq!(packets, vec![ServerPacket::UpdateCooler { status: true }]);
}

#[test]
fn pair_and_image_requests() {
    let mut service = Service::new();
    let (reply, out) = service.process(
        ServiceRequest::Pair {
            access_token: std::iter::repeat('t').take(128).collect(),
            device_id: device_id_chars('D'),
        },
        Ok(0),
    );
    assert!(matches!(reply, Ok(ServiceResponse::Empty)));
    assert!(out.is_none());
    let (reply, out) = service.process(ServiceRequest::Image, Ok(0));
    assert!(matches!(reply, Ok(ServiceResponse::Image(None))));
    assert!(out.is_none());
}

#[test]
fn device_round_trip_orders_cooler_before_water() {
    // connect, identify, report sensors, upload the image, and collect
    // the commands the dispatcher sends back to this connection
    let token = 42u64;
    let mut connection = Client::new();
    let mut service = Service::new();

    let registration = connection
        .handle_client_packet(ClientPacket::ReportId { id: device_id_chars('D') }, token)
        .unwrap();
    assert!(service.process_command(registration, Ok(15)).is_none());

    let no_event = connection.handle_client_packet(
        ClientPacket::ReportSensors {
            soil_moisture: 600,
            air_temperature: 10,
            light_sensor: 5,
            image_size: 4,
        },
        token,
    );
    assert!(no_event.is_none());

    let mut frame = vec![1u8, 2, 3, 4];
    frame.resize(128, 0);
    let completed = connection
        .handle_client_packet(ClientPacket::ImageFrame { frame_size: 4, frame }, token)
        .unwrap();

    let (out_token, packets) = service.process_command(completed, Ok(0)).unwrap();
    assert_eq!(out_token, token);
    assert_eq!(
        packets,
        vec![ServerPacket::UpdateCooler { status: true }, ServerPacket::WaterPulse]
    );
}

#[test]
fn disconnect_tears_down_the_session() {
    let mut service = Service::new();
    register(&mut service, 'D', 3, 20);
    register(&mut service, 'E', 4, 20);
    service.remove_connection(3);
    // the disconnected device no longer draws commands
    assert!(service.process_command(sensor_event('D', 600, 10), Ok(0)).is_none());
    // the other device's session is untouched
    let (token, _) = service.process_command(sensor_event('E', 600, 10), Ok(0)).unwrap();
    assert_eq!(token, 4);
}

#[test]
fn disconnect_of_unknown_token_changes_nothing() {
    let mut service = Service::new();
    register(&mut service, 'D', 3, 20);
    service.remove_connection(99);
    assert!(service.process_command(sensor_event('D', 0, 0), Ok(0)).is_some());
}
