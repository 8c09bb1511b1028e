use heatctl::config::{Config, Room, Sensor, Thermostat, TRVTempControl};
use heatctl::readings::{DeviceState, SensorState, ThermostatState};
use heatctl::store::StateTracker;
use heatctl::{IngestError, UpdateError};

fn test_config() -> Config {
    Config {
        mqtt_host: "localhost".to_string(),
        mqtt_port: 1883,
        rooms: vec![Room {
            name: "Bathroom".to_string(),
            sensor: Sensor {
                device_id: "sensor-1".to_string(),
            },
            thermostats: vec![Thermostat {
                device_id: "trv-1".to_string(),
            }],
            load_balancing: false,
            trv_temp_control: TRVTempControl::ExternalSensor,
        }],
    }
}

fn sensor_reading(temp_centi: i32) -> SensorState {
    SensorState {
        battery: 97,
        humidity_centi: 4550,
        linkquality: 120,
        temperature_centi: temp_centi,
        voltage: 3000,
    }
}

fn thermostat_reading(heat_required: bool, demand: u8, setpoint_centi: i32) -> ThermostatState {
    ThermostatState {
        heat_required,
        pi_heating_demand: demand,
        occupied_heating_setpoint_centi: setpoint_centi,
        window_open_external: false,
        window_open_internal: b"closed".to_vec(),
    }
}

#[test]
fn update_then_latest_sensor_returns_stored_value() {
    let mut store = StateTracker::new(test_config());
    let reading = sensor_reading(2137);
    assert!(store
        .update("sensor-1".to_string(), DeviceState::SensorState(reading))
        .is_ok());
    assert_eq!(store.get_recent_sensor_state("sensor-1"), Some(&reading));
}

#[test]
fn second_update_fully_replaces_first() {
    let mut store = StateTracker::new(test_config());
    let first = sensor_reading(1800);
    let second = SensorState {
        battery: 12,
        humidity_centi: 9999,
        linkquality: 3,
        temperature_centi: 2500,
        voltage: 2700,
    };
    store
        .update("sensor-1".to_string(), DeviceState::SensorState(first))
        .unwrap();
    store
        .update("sensor-1".to_string(), DeviceState::SensorState(second))
        .unwrap();
    // every field comes from the second reading; nothing is merged
    assert_eq!(store.get_recent_sensor_state("sensor-1"), Some(&second));
}

#[test]
fn update_unknown_device_fails_and_leaves_store_unchanged() {
    let mut store = StateTracker::new(test_config());
    let r = store.update(
        "nobody".to_string(),
        DeviceState::SensorState(sensor_reading(2000)),
    );
    assert_eq!(r, Err(UpdateError::UnknownDevice));
    assert_eq!(store.get_recent_sensor_state("nobody"), None);
    assert_eq!(store.get_recent_sensor_state("sensor-1"), None);
    assert_eq!(store.get_recent_thermostat_state("trv-1"), None);
}

#[test]
fn thermostat_update_round_trip() {
    let mut store = StateTracker::new(test_config());
    let reading = thermostat_reading(true, 80, 2100);
    store
        .update(
            "trv-1".to_string(),
            DeviceState::ThermostatState(reading.clone()),
        )
        .unwrap();
    assert_eq!(store.get_recent_thermostat_state("trv-1"), Some(&reading));
}

#[test]
fn handle_rejects_one_segment_topic() {
    let mut store = StateTracker::new(test_config());
    let r = store.handle("sensor-1", b"{}");
    assert_eq!(r, Err(IngestError::MalformedTopic));
    assert_eq!(store.get_recent_sensor_state("sensor-1"), None);
}

#[test]
fn handle_rejects_three_segment_topic() {
    let mut store = StateTracker::new(test_config());
    let r = store.handle("zigbee2mqtt/sensor-1/extra", b"{}");
    assert_eq!(r, Err(IngestError::MalformedTopic));
    assert_eq!(store.get_recent_sensor_state("sensor-1"), None);
}

#[test]
fn handle_accepts_any_namespace_segment() {
    // the first segment is not interpreted; only the device id counts
    let mut store = StateTracker::new(test_config());
    let payload = b"{\"battery\":1,\"humidity\":0,\"linkquality\":1,\"temperature\":20.0,\"voltage\":1}";
    assert!(store.handle("anything/sensor-1", payload).is_ok());
    assert!(store.handle("/sensor-1", payload).is_ok());
    assert_eq!(
        store.get_recent_sensor_state("sensor-1").unwrap().temperature_centi,
        2000
    );
}

#[test]
fn handle_trailing_slash_gives_empty_unknown_id() {
    let mut store = StateTracker::new(test_config());
    let r = store.handle("zigbee2mqtt/", b"{}");
    assert_eq!(r, Err(IngestError::UnknownDevice));
}

#[test]
fn handle_rejects_unknown_device() {
    let mut store = StateTracker::new(test_config());
    let r = store.handle("zigbee2mqtt/nobody", b"{}");
    assert_eq!(r, Err(IngestError::UnknownDevice));
    assert_eq!(store.get_recent_sensor_state("nobody"), None);
}

#[test]
fn handle_bad_payload_reports_decode_error_without_mutation() {
    let mut store = StateTracker::new(test_config());
    // not JSON at all
    let r = store.handle("zigbee2mqtt/sensor-1", b"not json");
    assert_eq!(r, Err(IngestError::DecodeError));
    // well-formed JSON that misses required fields
    let r2 = store.handle("zigbee2mqtt/sensor-1", b"{\"battery\": 97}");
    assert_eq!(r2, Err(IngestError::DecodeError));
    // right fields, wrong shape: battery must be an integer
    let r3 = store.handle(
        "zigbee2mqtt/sensor-1",
        b"{\"battery\":97.5,\"humidity\":45.5,\"linkquality\":120,\"temperature\":21.37,\"voltage\":3000}",
    );
    assert_eq!(r3, Err(IngestError::DecodeError));
    assert_eq!(store.get_recent_sensor_state("sensor-1"), None);
}

#[test]
fn handle_decodes_and_stores_sensor_payload() {
    let mut store = StateTracker::new(test_config());
    let payload = b"{\"battery\":97,\"humidity\":45.5,\"linkquality\":120,\"temperature\":21.37,\"voltage\":3000,\"last_seen\":\"2023-01-01T00:00:00Z\"}";
    assert!(store.handle("zigbee2mqtt/sensor-1", payload).is_ok());
    let stored = store.get_recent_sensor_state("sensor-1").unwrap();
    assert_eq!(stored.battery, 97);
    assert_eq!(stored.humidity_centi, 4550);
    assert_eq!(stored.linkquality, 120);
    assert_eq!(stored.temperature_centi, 2137);
    assert_eq!(stored.voltage, 3000);
}

#[test]
fn handle_decodes_and_stores_thermostat_payload() {
    let mut store = StateTracker::new(test_config());
    let payload = b"{\"heat_required\":true,\"pi_heating_demand\":83,\"occupied_heating_setpoint\":21.0,\"window_open_external\":false,\"window_open_internal\":\"closed\",\"battery\":55}";
    assert!(store.handle("zigbee2mqtt/trv-1", payload).is_ok());
    let stored = store.get_recent_thermostat_state("trv-1").unwrap();
    assert!(stored.heat_required);
    assert_eq!(stored.pi_heating_demand, 83);
    assert_eq!(stored.occupied_heating_setpoint_centi, 2100);
    assert!(!stored.window_open_external);
    assert_eq!(stored.window_open_internal, b"closed".to_vec());
}

#[test]
fn handle_rejects_nested_payload_values() {
    let mut store = StateTracker::new(test_config());
    let payload = b"{\"battery\":97,\"update\":{\"state\":\"idle\"}}";
    assert_eq!(
        store.handle("zigbee2mqtt/sensor-1", payload),
        Err(IngestError::DecodeError)
    );
}

#[test]
fn handle_truncates_extra_fraction_digits() {
    let mut store = StateTracker::new(test_config());
    let payload = b"{\"battery\":1,\"humidity\":0.125,\"linkquality\":0,\"temperature\":21.375,\"voltage\":1}";
    store.handle("zigbee2mqtt/sensor-1", payload).unwrap();
    let stored = store.get_recent_sensor_state("sensor-1").unwrap();
    assert_eq!(stored.temperature_centi, 2137);
    assert_eq!(stored.humidity_centi, 12);
}
