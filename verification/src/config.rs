//! Static room configuration: each room names one temperature sensor and
//! one or more radiator thermostats. Loaded once, never mutated.

use vstd::prelude::*;

verus! {

/// A zone temperature sensor, identified by its stable device id.
#[derive(Clone, Debug)]
pub struct Sensor {
    pub device_id: String,
}

/// A radiator thermostat (TRV), identified by its stable device id.
#[derive(Clone, Debug)]
pub struct Thermostat {
    pub device_id: String,
}

/// Which temperature source the TRVs of a room regulate on.
#[derive(Clone, Copy, PartialEq, Eq, Structural, Debug)]
pub enum TRVTempControl {
    /// Only the external (room) sensor; falls back to the internal sensor
    /// when no external reading is available.
    ExternalSensor,
    /// Both sensors, with an automatic offset.
    Mixed,
    /// Only the TRV's own internal sensor.
    InternalSensor,
}

/// One heating zone: a name, its sensor, and its thermostats.
#[derive(Clone, Debug)]
pub struct Room {
    pub name: String,
    pub sensor: Sensor,
    pub thermostats: Vec<Thermostat>,
    /// Enables load balancing between the TRVs of the room.
    pub load_balancing: bool,
    /// Applies to every TRV of the room.
    pub trv_temp_control: TRVTempControl,
}

/// The already-validated room list, plus the transport endpoint the
/// surrounding process connects to (carried, not interpreted, here).
#[derive(Clone, Debug)]
pub struct Config {
    pub mqtt_host: String,
    pub mqtt_port: u16,
    pub rooms: Vec<Room>,
}

impl Config {
    /// The configured sensor ids, one per room, in room order.
    pub open spec fn spec_sensor_ids(&self) -> Seq<Seq<char>> {
        self.rooms@.map(|i: int, r: Room| r.sensor.device_id@)
    }

    /// The configured thermostat ids, in room order, each room's in order.
    pub open spec fn spec_thermostat_ids(&self) -> Seq<Seq<char>> {
        spec_thermostat_ids_of(self.rooms@)
    }

    /// True when `id` is one of the configured sensor ids.
    pub open spec fn is_sensor_id(&self, id: Seq<char>) -> bool {
        self.spec_sensor_ids().contains(id)
    }

    /// True when `id` is one of the configured thermostat ids.
    pub open spec fn is_thermostat_id(&self, id: Seq<char>) -> bool {
        self.spec_thermostat_ids().contains(id)
    }

    pub fn sensor_ids(&self) -> (r: Vec<String>)
        ensures
            r@.map_values(|s: String| s@) == self.spec_sensor_ids(),
    {
        let mut out: Vec<String> = Vec::new();
        let mut i: usize = 0;
        while i < self.rooms.len()
            invariant
                i <= self.rooms.len(),
                out@.len() == i,
                forall|k: int| 0 <= k < i ==> out@[k]@ == self.rooms@[k].sensor.device_id@,
            decreases self.rooms.len() - i,
        {
            out.push(self.rooms[i].sensor.device_id.clone());
            i = i + 1;
        }
        proof {
            assert(out@.map_values(|s: String| s@) =~= self.spec_sensor_ids());
        }
        out
    }

    pub fn thermostat_ids(&self) -> (r: Vec<String>)
        ensures
            r@.map_values(|s: String| s@) == self.spec_thermostat_ids(),
    {
        let mut out: Vec<String> = Vec::new();
        let mut i: usize = 0;
        while i < self.rooms.len()
            invariant
                i <= self.rooms.len(),
                out@.map_values(|s: String| s@) == spec_thermostat_ids_of(
                    self.rooms@.take(i as int),
                ),
            decreases self.rooms.len() - i,
        {
            let room = &self.rooms[i];
            let mut j: usize = 0;
            while j < room.thermostats.len()
                invariant
                    j <= room.thermostats.len(),
                    i < self.rooms.len(),
                    *room == self.rooms@[i as int],
                    out@.map_values(|s: String| s@) == spec_thermostat_ids_of(
                        self.rooms@.take(i as int),
                    ) + room.thermostats@.take(j as int).map(
                        |k: int, t: Thermostat| t.device_id@,
                    ),
                decreases room.thermostats.len() - j,
            {
                let ghost prior = out@.map_values(|s: String| s@);
                out.push(room.thermostats[j].device_id.clone());
                proof {
                    let tid = room.thermostats@[j as int].device_id@;
                    assert(out@.map_values(|s: String| s@) =~= prior.push(tid));
                    assert(room.thermostats@.take(j + 1).map(|k: int, t: Thermostat| t.device_id@)
                        =~= room.thermostats@.take(j as int).map(
                        |k: int, t: Thermostat| t.device_id@,
                    ).push(tid));
                    assert(prior.push(tid) =~= spec_thermostat_ids_of(self.rooms@.take(i as int))
                        + room.thermostats@.take(j + 1).map(|k: int, t: Thermostat| t.device_id@));
                }
                j = j + 1;
            }
            proof {
                let taken = self.rooms@.take(i + 1);
                assert(taken.drop_last() =~= self.rooms@.take(i as int));
                assert(taken.last() == self.rooms@[i as int]);
                assert(room.thermostats@.take(room.thermostats@.len() as int)
                    =~= room.thermostats@);
                assert(spec_thermostat_ids_of(taken) == spec_thermostat_ids_of(
                    self.rooms@.take(i as int),
                ) + room.thermostats@.map(|k: int, t: Thermostat| t.device_id@));
            }
            i = i + 1;
        }
        proof {
            assert(self.rooms@.take(self.rooms@.len() as int) =~= self.rooms@);
        }
        out
    }
}

/// The thermostat ids of `rooms`, flattened in order.
pub open spec fn spec_thermostat_ids_of(rooms: Seq<Room>) -> Seq<Seq<char>>
    decreases rooms.len(),
{
    if rooms.len() == 0 {
        Seq::empty()
    } else {
        spec_thermostat_ids_of(rooms.drop_last()) + rooms.last().thermostats@.map(
            |k: int, t: Thermostat| t.device_id@,
        )
    }
}

} // verus!
