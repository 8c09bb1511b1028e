use heatctl::config::{Config, Room, Sensor, Thermostat, TRVTempControl};
use heatctl::control::{ControlParams, RoomOutcome};
use heatctl::shared::SharedStateTracker;
use heatctl::store::StateTracker;
use heatctl::IngestError;

fn config() -> Config {
    Config {
        mqtt_host: "localhost".to_string(),
        mqtt_port: 1883,
        rooms: vec![Room {
            name: "Bathroom".to_string(),
            sensor: Sensor {
                device_id: "sensor-1".to_string(),
            },
            thermostats: vec![Thermostat {
                device_id: "trv-1".to_string(),
            }],
            load_balancing: false,
            trv_temp_control: TRVTempControl::ExternalSensor,
        }],
    }
}

#[test]
fn shared_store_ingests_and_serves_passes() {
    let shared = SharedStateTracker::new(StateTracker::new(config()));

    assert_eq!(
        shared.handle("oddtopic", b"{}"),
        Err(IngestError::MalformedTopic)
    );
    assert_eq!(
        shared.handle("zigbee2mqtt/nobody", b"{}"),
        Err(IngestError::UnknownDevice)
    );

    let sensor_payload = b"{\"battery\":97,\"humidity\":45.5,\"linkquality\":120,\"temperature\":21.37,\"voltage\":3000}";
    shared.handle("zigbee2mqtt/sensor-1", sensor_payload).unwrap();
    let thermostat_payload = b"{\"heat_required\":true,\"pi_heating_demand\":100,\"occupied_heating_setpoint\":21.0,\"window_open_external\":false,\"window_open_internal\":\"closed\"}";
    shared
        .handle("zigbee2mqtt/trv-1", thermostat_payload)
        .unwrap();

    let outcomes = shared.control_pass(&ControlParams::baseline());
    assert_eq!(outcomes.len(), 1);
    match &outcomes[0] {
        RoomOutcome::Emit(cmd) => {
            // setpoint 21.0, sensor 21.37: raw negative, clamps to zero
            assert_eq!(cmd.payload, b"I10000=21.4".to_vec());
        }
        other => panic!("unexpected outcome: {:?}", other),
    }

    let ext = shared.external_sensor_pass();
    match &ext[0] {
        RoomOutcome::Emit(cmd) => {
            assert_eq!(
                cmd.payload,
                b"{\"external_measured_room_sensor\":2137}".to_vec()
            );
        }
        other => panic!("unexpected outcome: {:?}", other),
    }

    let snap = shared.snapshot_for_logging();
    assert_eq!(snap.len(), 1);
    assert!(snap[0].1.is_some());
}
