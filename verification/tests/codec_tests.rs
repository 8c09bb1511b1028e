use heatctl::config::{Config, Room, Sensor, Thermostat, TRVTempControl};
use heatctl::readings::{DeviceState, SensorState};
use heatctl::store::StateTracker;
use heatctl::{IngestError, UpdateError};

fn config() -> Config {
    Config {
        mqtt_host: "h".to_string(),
        mqtt_port: 1,
        rooms: vec![Room {
            name: "Room".to_string(),
            sensor: Sensor {
                device_id: "s".to_string(),
            },
            thermostats: vec![Thermostat {
                device_id: "t".to_string(),
            }],
            load_balancing: true,
            trv_temp_control: TRVTempControl::Mixed,
        }],
    }
}

fn handle(payload: &[u8]) -> Result<(), IngestError> {
    let mut store = StateTracker::new(config());
    store.handle("ns/s", payload)
}

fn stored(payload: &[u8]) -> SensorState {
    let mut store = StateTracker::new(config());
    store.handle("ns/s", payload).unwrap();
    *store.get_recent_sensor_state("s").unwrap()
}

fn with_temp(temp: &str) -> Vec<u8> {
    format!(
        "{{\"battery\":1,\"humidity\":0,\"linkquality\":1,\"temperature\":{},\"voltage\":1}}",
        temp
    )
    .into_bytes()
}

#[test]
fn whitespace_and_unknown_scalar_fields_are_tolerated() {
    let payload = b" { \"battery\" : 1 , \"note\" : \"x\" , \"humidity\" : 0.5 ,\r\n \"linkquality\" : 1 , \"extra\" : null , \"temperature\" : -2.5 , \"voltage\" : 1 , \"flag\" : false } ";
    let s = stored(payload);
    assert_eq!(s.temperature_centi, -250);
    assert_eq!(s.humidity_centi, 50);
}

#[test]
fn number_grammar_edges() {
    assert_eq!(stored(&with_temp("0")).temperature_centi, 0);
    assert_eq!(stored(&with_temp("-0.5")).temperature_centi, -50);
    assert_eq!(stored(&with_temp("21.3")).temperature_centi, 2130);
    assert_eq!(stored(&with_temp("21.37999")).temperature_centi, 2137);
    // exponents, bare points, and bare minus are not numbers
    assert_eq!(handle(&with_temp("1e3")), Err(IngestError::DecodeError));
    assert_eq!(handle(&with_temp("21.")), Err(IngestError::DecodeError));
    assert_eq!(handle(&with_temp("-")), Err(IngestError::DecodeError));
    // out of the accepted magnitude
    assert_eq!(handle(&with_temp("10001")), Err(IngestError::DecodeError));
}

#[test]
fn range_checks_reject_out_of_range_integers() {
    let payload = b"{\"battery\":256,\"humidity\":0,\"linkquality\":1,\"temperature\":1,\"voltage\":1}";
    assert_eq!(handle(payload), Err(IngestError::DecodeError));
    let payload2 = b"{\"battery\":1,\"humidity\":0,\"linkquality\":1,\"temperature\":1,\"voltage\":65536}";
    assert_eq!(handle(payload2), Err(IngestError::DecodeError));
}

#[test]
fn string_escapes_and_structures_are_rejected() {
    let payload = b"{\"battery\":1,\"humidity\":0,\"linkquality\":1,\"temperature\":\"21\",\"voltage\":1}";
    // a string where a number is required
    assert_eq!(handle(payload), Err(IngestError::DecodeError));
    let payload2 = b"{\"note\":\"a\\\"b\",\"battery\":1,\"humidity\":0,\"linkquality\":1,\"temperature\":1,\"voltage\":1}";
    // escape sequences are outside the accepted grammar
    assert_eq!(handle(payload2), Err(IngestError::DecodeError));
    let payload3 = b"{\"list\":[1],\"battery\":1,\"humidity\":0,\"linkquality\":1,\"temperature\":1,\"voltage\":1}";
    assert_eq!(handle(payload3), Err(IngestError::DecodeError));
    let payload4 = b"[1,2]";
    assert_eq!(handle(payload4), Err(IngestError::DecodeError));
    let payload5 = b"{\"battery\":1,\"humidity\":0,\"linkquality\":1,\"temperature\":1,\"voltage\":1} x";
    assert_eq!(handle(payload5), Err(IngestError::DecodeError));
}

#[test]
fn duplicate_keys_take_the_first_occurrence() {
    let payload = b"{\"battery\":1,\"battery\":2,\"humidity\":0,\"linkquality\":1,\"temperature\":1,\"voltage\":1}";
    assert_eq!(stored(payload).battery, 1);
}

#[test]
fn error_descriptions() {
    assert_eq!(UpdateError::UnknownDevice.describe(), "unknown device id");
    assert_eq!(IngestError::MalformedTopic.describe(), "malformed topic");
    assert_eq!(IngestError::UnknownDevice.describe(), "unknown device id");
    assert_eq!(IngestError::DecodeError.describe(), "payload decode failure");
}

#[test]
fn empty_object_misses_required_fields() {
    assert_eq!(handle(b"{}"), Err(IngestError::DecodeError));
    assert_eq!(handle(b"  { } "), Err(IngestError::DecodeError));
    assert_eq!(handle(b""), Err(IngestError::DecodeError));
}

#[test]
fn update_rejects_unknown_even_with_valid_reading() {
    let mut store = StateTracker::new(config());
    let r = store.update(
        "unknown".to_string(),
        DeviceState::SensorState(SensorState {
            battery: 1,
            humidity_centi: 0,
            linkquality: 1,
            temperature_centi: 1,
            voltage: 1,
        }),
    );
    assert_eq!(r, Err(UpdateError::UnknownDevice));
}
