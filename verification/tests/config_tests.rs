use heatctl::config::{Config, Room, Sensor, Thermostat, TRVTempControl};

fn room(name: &str, sensor_id: &str, thermostat_ids: &[&str]) -> Room {
    Room {
        name: name.to_string(),
        sensor: Sensor {
            device_id: sensor_id.to_string(),
        },
        thermostats: thermostat_ids
            .iter()
            .map(|id| Thermostat {
                device_id: id.to_string(),
            })
            .collect(),
        load_balancing: false,
        trv_temp_control: TRVTempControl::ExternalSensor,
    }
}

#[test]
fn sensor_ids() {
    let config = Config {
        mqtt_host: "localhost".to_string(),
        mqtt_port: 1883,
        rooms: vec![
            Room {
                name: "Bathroom".to_string(),
                sensor: Sensor {
                    device_id: "0xa4c1385a6271b083".to_string(),
                },
                thermostats: vec![Thermostat {
                    device_id: "0x3410f4fffe617bcc".to_string(),
                }],
                load_balancing: false,
                trv_temp_control: TRVTempControl::ExternalSensor,
            },
            Room {
                name: "Bedroom".to_string(),
                sensor: Sensor {
                    device_id: "0xa4c1385a6271b084".to_string(),
                },
                thermostats: vec![Thermostat {
                    device_id: "0x3410f4fffe617bcd".to_string(),
                }],
                load_balancing: false,
                trv_temp_control: TRVTempControl::ExternalSensor,
            },
        ],
    };

    assert_eq!(
        config.sensor_ids(),
        vec!["0xa4c1385a6271b083", "0xa4c1385a6271b084"]
    );
}

#[test]
fn thermostat_ids() {
    let config = Config {
        mqtt_host: "localhost".to_string(),
        mqtt_port: 1883,
        rooms: vec![
            Room {
                name: "Bathroom".to_string(),
                sensor: Sensor {
                    device_id: "0xa4c1385a6271b083".to_string(),
                },
                thermostats: vec![
                    Thermostat {
                        device_id: "test".to_string(),
                    },
                    Thermostat {
                        device_id: "abc".to_string(),
                    },
                ],
                load_balancing: false,
                trv_temp_control: TRVTempControl::ExternalSensor,
            },
            Room {
                name: "Bedroom".to_string(),
                sensor: Sensor {
                    device_id: "0xa4c1385a6271b084".to_string(),
                },
                thermostats: vec![Thermostat {
                    device_id: "hmm".to_string(),
                }],
                load_balancing: false,
                trv_temp_control: TRVTempControl::ExternalSensor,
            },
        ],
    };

    assert_eq!(config.thermostat_ids(), vec!["test", "abc", "hmm"]);
}

#[test]
fn sensor_ids_empty_config() {
    let config = Config {
        mqtt_host: "localhost".to_string(),
        mqtt_port: 1883,
        rooms: vec![],
    };
    assert!(config.sensor_ids().is_empty());
    assert!(config.thermostat_ids().is_empty());
}

#[test]
fn thermostat_ids_flatten_in_room_order() {
    let config = Config {
        mqtt_host: "h".to_string(),
        mqtt_port: 1,
        rooms: vec![room("a", "s1", &["t1"]), room("b", "s2", &["t2", "t3"])],
    };
    assert_eq!(config.thermostat_ids(), vec!["t1", "t2", "t3"]);
}
