use heatctl::config::{Config, Room, Sensor, Thermostat, TRVTempControl};
use heatctl::control::{control_adjustment_centi, ControlParams, PublishTarget, RoomOutcome};
use heatctl::readings::{DeviceState, SensorState, ThermostatState};
use heatctl::store::StateTracker;

fn params() -> ControlParams {
    // demand threshold 0.75, off sentinel -50.0, base flow 21.4
    ControlParams::baseline()
}

fn one_room_config() -> Config {
    Config {
        mqtt_host: "localhost".to_string(),
        mqtt_port: 1883,
        rooms: vec![Room {
            name: "Bathroom".to_string(),
            sensor: Sensor {
                device_id: "sensor-1".to_string(),
            },
            thermostats: vec![Thermostat {
                device_id: "trv-1".to_string(),
            }],
            load_balancing: false,
            trv_temp_control: TRVTempControl::ExternalSensor,
        }],
    }
}

fn sensor(temp_centi: i32) -> SensorState {
    SensorState {
        battery: 90,
        humidity_centi: 4000,
        linkquality: 100,
        temperature_centi: temp_centi,
        voltage: 3000,
    }
}

fn thermostat(heat_required: bool, demand: u8, setpoint_centi: i32) -> ThermostatState {
    ThermostatState {
        heat_required,
        pi_heating_demand: demand,
        occupied_heating_setpoint_centi: setpoint_centi,
        window_open_external: false,
        window_open_internal: b"closed".to_vec(),
    }
}

#[test]
fn demand_at_or_below_threshold_gives_zero_adjustment() {
    // demand 0.70 with threshold 0.75
    let adj = control_adjustment_centi(&params(), true, 70, 2100, 1900);
    assert_eq!(adj, 0);
    // exactly at the threshold still yields zero
    assert_eq!(control_adjustment_centi(&params(), true, 75, 2100, 1900), 0);
}

#[test]
fn full_demand_reaches_the_clamp() {
    // demand 1.0, setpoint 21.0, sensor 19.0: raw (21-19)*((1-0.75)/0.25) = 2.0
    let adj = control_adjustment_centi(&params(), true, 100, 2100, 1900);
    assert_eq!(adj, 200);
}

#[test]
fn negative_raw_adjustment_clamps_to_zero() {
    // demand 0.9, setpoint 20.0, sensor 20.5: raw negative
    let adj = control_adjustment_centi(&params(), true, 90, 2000, 2050);
    assert_eq!(adj, 0);
}

#[test]
fn proportional_midpoint_value() {
    // demand 0.80, setpoint 22.0, sensor 21.0: raw = 1.0 * (0.05/0.25) = 0.2
    let adj = control_adjustment_centi(&params(), true, 80, 2200, 2100);
    assert_eq!(adj, 20);
}

#[test]
fn heat_not_required_forces_override_sentinel() {
    let p = params();
    // regardless of demand, setpoint, or sensor values
    assert_eq!(control_adjustment_centi(&p, false, 0, 2100, 1900), -5000);
    assert_eq!(control_adjustment_centi(&p, false, 100, 2100, 1900), -5000);
    assert_eq!(control_adjustment_centi(&p, false, 90, 0, 0), -5000);
    // and its magnitude dominates anything the proportional path can emit
    for demand in 0..=100u8 {
        let adj = control_adjustment_centi(&p, true, demand, 1000000, -1000000);
        assert!(adj.abs() < 5000);
        assert!(adj >= 0 && adj <= 200);
    }
}

#[test]
fn is_window_open_matches_the_enumeration() {
    let mut t = thermostat(true, 50, 2100);
    assert!(!t.is_window_open());
    t.window_open_internal = b"external_open".to_vec();
    assert!(t.is_window_open());
    t.window_open_internal = b"open".to_vec();
    assert!(t.is_window_open());
    t.window_open_internal = b"closed".to_vec();
    assert!(!t.is_window_open());
    t.window_open_internal = b"".to_vec();
    assert!(!t.is_window_open());
    t.window_open_internal = b"OPEN".to_vec();
    assert!(!t.is_window_open());
    // the external flag alone opens it, whatever the internal string says
    t.window_open_external = true;
    assert!(t.is_window_open());
}

#[test]
fn control_pass_emits_formatted_flow_command() {
    let mut store = StateTracker::new(one_room_config());
    store
        .update("sensor-1".to_string(), DeviceState::SensorState(sensor(1900)))
        .unwrap();
    store
        .update(
            "trv-1".to_string(),
            DeviceState::ThermostatState(thermostat(true, 100, 2100)),
        )
        .unwrap();
    let outcomes = store.control_pass(&params());
    assert_eq!(outcomes.len(), 1);
    match &outcomes[0] {
        RoomOutcome::Emit(cmd) => {
            match &cmd.target {
                PublishTarget::HeatingCircuit { room } => assert_eq!(room, "Bathroom"),
                other => panic!("unexpected target: {:?}", other),
            }
            // base 21.4 minus the clamped 2.0 adjustment, one fraction digit
            assert_eq!(cmd.payload, b"I10000=19.4".to_vec());
        }
        other => panic!("unexpected outcome: {:?}", other),
    }
}

#[test]
fn control_pass_emits_off_sentinel_flow_command() {
    let mut store = StateTracker::new(one_room_config());
    store
        .update("sensor-1".to_string(), DeviceState::SensorState(sensor(1900)))
        .unwrap();
    store
        .update(
            "trv-1".to_string(),
            DeviceState::ThermostatState(thermostat(false, 100, 2100)),
        )
        .unwrap();
    let outcomes = store.control_pass(&params());
    match &outcomes[0] {
        // base 21.4 minus the -50.0 sentinel
        RoomOutcome::Emit(cmd) => assert_eq!(cmd.payload, b"I10000=71.4".to_vec()),
        other => panic!("unexpected outcome: {:?}", other),
    }
}

#[test]
fn control_pass_reports_missing_state() {
    let store = StateTracker::new(one_room_config());
    let outcomes = store.control_pass(&params());
    assert_eq!(outcomes.len(), 1);
    match &outcomes[0] {
        RoomOutcome::Missing { room } => assert_eq!(room, "Bathroom"),
        other => panic!("unexpected outcome: {:?}", other),
    }
}

#[test]
fn external_pass_scales_temperature_to_hundredths() {
    let mut store = StateTracker::new(one_room_config());
    // sensor temperature 21.37 degrees -> integer field 2137
    store
        .update("sensor-1".to_string(), DeviceState::SensorState(sensor(2137)))
        .unwrap();
    let outcomes = store.external_sensor_pass();
    assert_eq!(outcomes.len(), 1);
    match &outcomes[0] {
        RoomOutcome::Emit(cmd) => {
            match &cmd.target {
                PublishTarget::ThermostatSet { device_id } => assert_eq!(device_id, "trv-1"),
                other => panic!("unexpected target: {:?}", other),
            }
            assert_eq!(
                cmd.payload,
                b"{\"external_measured_room_sensor\":2137}".to_vec()
            );
        }
        other => panic!("unexpected outcome: {:?}", other),
    }
}

#[test]
fn external_pass_reports_missing_sensor() {
    let store = StateTracker::new(one_room_config());
    let outcomes = store.external_sensor_pass();
    match &outcomes[0] {
        RoomOutcome::Missing { room } => assert_eq!(room, "Bathroom"),
        other => panic!("unexpected outcome: {:?}", other),
    }
}

#[test]
fn snapshot_reports_rooms_in_order() {
    let mut store = StateTracker::new(one_room_config());
    let snap = store.snapshot_for_logging();
    assert_eq!(snap.len(), 1);
    assert_eq!(snap[0].0, "Bathroom");
    assert!(snap[0].1.is_none());
    assert!(snap[0].2.is_none());

    store
        .update("sensor-1".to_string(), DeviceState::SensorState(sensor(2000)))
        .unwrap();
    let snap2 = store.snapshot_for_logging();
    assert_eq!(snap2[0].1, Some(sensor(2000)));
    assert!(snap2[0].2.is_none());
}
