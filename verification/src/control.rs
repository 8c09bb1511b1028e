//! The periodic control logic: the demand-thresholded proportional law with
//! clamping and the heat-off override, the flow-temperature command pass,
//! and the external-sensor publication pass.
//!
//! Each pass reads the store once and yields one outcome per room; every
//! room gets its own publish target, so no room's command overwrites
//! another's within a pass. A room with several thermostats regulates on
//! its first thermostat's reading, and the external temperature is pushed
//! to that same first thermostat.

use vstd::prelude::*;
use vstd::string::StringSliceAdditionalSpecFns;
use crate::config::Room;
use crate::readings::{SensorState, ThermostatState, ThermostatStateView};
use crate::store::StateTracker;
use crate::text::{
    append_bytes, append_i64_dec, append_one_decimal, dec_int, fmt_one_decimal,
};

verus! {

/// Largest positive adjustment the proportional path can emit, in
/// hundredths of a degree (the 2.0 degree slew limit).
pub open spec fn max_adjustment_centi() -> int {
    200
}

/// The tunable constants of the control law.
#[derive(Clone, Copy, PartialEq, Eq, Structural, Debug)]
pub struct ControlParams {
    /// Demand threshold, integer percent; below or at it no adjustment is made.
    pub demand_threshold_pct: u8,
    /// Adjustment emitted when the thermostat reports no heat required;
    /// a large negative sentinel downstream reads as "cut heat".
    pub off_adjustment_centi: i32,
    /// Baseline supply flow temperature the adjustment is taken from,
    /// hundredths of a degree.
    pub base_flow_temp_centi: i32,
}

impl ControlParams {
    /// Parameter validity: a real threshold, a sentinel whose magnitude
    /// dominates every proportional adjustment, a sane baseline.
    pub open spec fn wf(self) -> bool {
        &&& 0 < self.demand_threshold_pct < 100
        &&& -100000 <= self.off_adjustment_centi < -max_adjustment_centi()
        &&& -100000 <= self.base_flow_temp_centi <= 100000
    }

    /// A workable tuning: threshold at 75 percent demand, a -50 degree
    /// off-sentinel, and a 21.4 degree baseline flow temperature.
    pub fn baseline() -> (r: ControlParams)
        ensures
            r.wf(),
            r.demand_threshold_pct == 75,
            r.off_adjustment_centi == -5000,
            r.base_flow_temp_centi == 2140,
    {
        ControlParams { demand_threshold_pct: 75, off_adjustment_centi: -5000, base_flow_temp_centi: 2140 }
    }
}

/// The demand-thresholded proportional law, in hundredths of a degree.
///
/// No heat required overrides everything with the off sentinel. At or
/// below the demand threshold the adjustment is zero. Above it, the
/// setpoint error is weighted by the distance of the demand above the
/// threshold, then clamped to `[0, max_adjustment_centi()]`.
pub open spec fn spec_adjustment(
    params: ControlParams,
    heat_required: bool,
    demand_pct: int,
    setpoint_centi: int,
    sensor_centi: int,
) -> int {
    if !heat_required {
        params.off_adjustment_centi as int
    } else if demand_pct <= params.demand_threshold_pct {
        0
    } else {
        let raw = (setpoint_centi - sensor_centi) * (demand_pct - params.demand_threshold_pct) / (
        100 - params.demand_threshold_pct);
        if raw < 0 {
            0
        } else if raw > max_adjustment_centi() {
            max_adjustment_centi()
        } else {
            raw
        }
    }
}

/// The executable control law.
pub fn control_adjustment_centi(
    params: &ControlParams,
    heat_required: bool,
    demand_pct: u8,
    setpoint_centi: i32,
    sensor_centi: i32,
) -> (r: i32)
    requires
        params.wf(),
        demand_pct <= 100,
        -1000000 <= setpoint_centi <= 1000000,
        -1000000 <= sensor_centi <= 1000000,
    ensures
        r as int == spec_adjustment(
            *params,
            heat_required,
            demand_pct as int,
            setpoint_centi as int,
            sensor_centi as int,
        ),
        heat_required ==> 0 <= r <= max_adjustment_centi(),
        !heat_required ==> r == params.off_adjustment_centi,
{
    if !heat_required {
        return params.off_adjustment_centi;
    }
    let thr = params.demand_threshold_pct;
    if demand_pct <= thr {
        return 0;
    }
    let delta: i64 = setpoint_centi as i64 - sensor_centi as i64;
    let gap: i64 = (demand_pct - thr) as i64;
    let den: i64 = (100 - thr) as i64;
    if delta <= 0 {
        proof {
            let num = (setpoint_centi - sensor_centi) * (demand_pct - thr);
            assert(num <= 0) by (nonlinear_arith)
                requires
                    setpoint_centi - sensor_centi <= 0,
                    demand_pct - thr > 0,
                    num == (setpoint_centi - sensor_centi) * (demand_pct - thr),
            ;
            assert(num / (100 - thr) <= 0) by (nonlinear_arith)
                requires
                    num <= 0,
                    100 - thr > 0,
            ;
        }
        return 0;
    }
    proof {
        assert(0 < delta * gap <= 2000000 * 100) by (nonlinear_arith)
            requires
                0 < delta <= 2000000,
                0 < gap <= 100,
        ;
    }
    let num: i64 = delta * gap;
    let raw: i64 = num / den;
    if raw > 200 {
        200
    } else {
        raw as i32
    }
}

/// Where a command is published; the surrounding process maps a target to
/// its transport topic.
#[derive(Clone, PartialEq, Eq, Debug)]
pub enum PublishTarget {
    /// The `/set` channel of one thermostat.
    ThermostatSet { device_id: String },
    /// The flow-temperature controller of one room's heating circuit.
    HeatingCircuit { room: String },
}

/// One outbound instruction: a target and an opaque payload.
#[derive(Clone, PartialEq, Eq, Debug)]
pub struct Command {
    pub target: PublishTarget,
    pub payload: Vec<u8>,
}

/// What one control or publication pass produced for one room.
#[derive(Clone, PartialEq, Eq, Debug)]
pub enum RoomOutcome {
    /// A command to publish.
    Emit(Command),
    /// No command: the store has no recent state for this room.
    Missing { room: String },
}

/// The flow-temperature command payload: the setting name and the adjusted
/// flow temperature with one fraction digit.
pub open spec fn flow_command_payload(flow_centi: int) -> Seq<u8> {
    "I10000=".spec_bytes() + fmt_one_decimal(flow_centi)
}

/// The external-measured-temperature payload: one integer field, the
/// temperature in hundredths of a degree.
pub open spec fn ext_sensor_payload(temp_centi: int) -> Seq<u8> {
    "{\"external_measured_room_sensor\":".spec_bytes() + dec_int(temp_centi)
        + "}".spec_bytes()
}

/// What the control pass owes one room: a flow command from the law when
/// both readings are present, a missing-state report otherwise.
pub open spec fn control_outcome_ok(
    out: RoomOutcome,
    params: ControlParams,
    sensors: Map<Seq<char>, SensorState>,
    thermostats: Map<Seq<char>, ThermostatStateView>,
    room: Room,
) -> bool {
    let sid = room.sensor.device_id@;
    let present = sensors.contains_key(sid) && room.thermostats@.len() > 0
        && thermostats.contains_key(room.thermostats@[0].device_id@);
    if present {
        let s = sensors[sid];
        let t = thermostats[room.thermostats@[0].device_id@];
        let adj = spec_adjustment(
            params,
            t.heat_required,
            t.pi_heating_demand as int,
            t.occupied_heating_setpoint_centi as int,
            s.temperature_centi as int,
        );
        &&& out matches RoomOutcome::Emit(c)
        &&& c.target matches PublishTarget::HeatingCircuit { room: rn } && rn@ == room.name@
        &&& c.payload@ == flow_command_payload(params.base_flow_temp_centi - adj)
    } else {
        out matches RoomOutcome::Missing { room: rn } && rn@ == room.name@
    }
}

/// What the publication pass owes one room: its sensor temperature sent to
/// the room's first thermostat when present, a missing report otherwise.
pub open spec fn ext_outcome_ok(
    out: RoomOutcome,
    sensors: Map<Seq<char>, SensorState>,
    room: Room,
) -> bool {
    let sid = room.sensor.device_id@;
    let present = sensors.contains_key(sid) && room.thermostats@.len() > 0;
    if present {
        let s = sensors[sid];
        &&& out matches RoomOutcome::Emit(c)
        &&& c.target matches PublishTarget::ThermostatSet { device_id: d } && d@
            == room.thermostats@[0].device_id@
        &&& c.payload@ == ext_sensor_payload(s.temperature_centi as int)
    } else {
        out matches RoomOutcome::Missing { room: rn } && rn@ == room.name@
    }
}

impl StateTracker {
    /// One control pass: apply the law to every room independently.
    pub fn control_pass(&self, params: &ControlParams) -> (r: Vec<RoomOutcome>)
        requires
            self.wf(),
            params.wf(),
        ensures
            r@.len() == self.spec_config().rooms@.len(),
            forall|i: int|
                0 <= i < r@.len() ==> control_outcome_ok(
                    #[trigger] r@[i],
                    *params,
                    self.sensors(),
                    self.thermostats(),
                    self.spec_config().rooms@[i],
                ),
    {
        let mut out: Vec<RoomOutcome> = Vec::new();
        let n = self.config().rooms.len();
        let mut i: usize = 0;
        while i < n
            invariant
                self.wf(),
                params.wf(),
                n == self.spec_config().rooms@.len(),
                i <= n,
                out@.len() == i,
                forall|k: int|
                    0 <= k < i ==> control_outcome_ok(
                        #[trigger] out@[k],
                        *params,
                        self.sensors(),
                        self.thermostats(),
                        self.spec_config().rooms@[k],
                    ),
            decreases n - i,
        {
            let room = &self.config().rooms[i];
            let sensor = self.get_recent_sensor_state(room.sensor.device_id.as_str());
            let outcome: RoomOutcome = if room.thermostats.len() == 0 {
                RoomOutcome::Missing { room: room.name.clone() }
            } else {
                let thermostat = self.get_recent_thermostat_state(
                    room.thermostats[0].device_id.as_str(),
                );
                match (sensor, thermostat) {
                    (Some(s), Some(t)) => {
                        let adj = control_adjustment_centi(
                            params,
                            t.heat_required,
                            t.pi_heating_demand,
                            t.occupied_heating_setpoint_centi,
                            s.temperature_centi,
                        );
                        let flow: i64 = params.base_flow_temp_centi as i64 - adj as i64;
                        let mut payload: Vec<u8> = Vec::new();
                        append_bytes(&mut payload, "I10000=".as_bytes());
                        append_one_decimal(&mut payload, flow);
                        RoomOutcome::Emit(
                            Command {
                                target: PublishTarget::HeatingCircuit { room: room.name.clone() },
                                payload,
                            },
                        )
                    },
                    _ => RoomOutcome::Missing { room: room.name.clone() },
                }
            };
            out.push(outcome);
            i = i + 1;
        }
        out
    }

    /// One publication pass: push each room's sensor temperature to its
    /// thermostat as the external measured temperature.
    pub fn external_sensor_pass(&self) -> (r: Vec<RoomOutcome>)
        requires
            self.wf(),
        ensures
            r@.len() == self.spec_config().rooms@.len(),
            forall|i: int|
                0 <= i < r@.len() ==> ext_outcome_ok(
                    #[trigger] r@[i],
                    self.sensors(),
                    self.spec_config().rooms@[i],
                ),
    {
        let mut out: Vec<RoomOutcome> = Vec::new();
        let n = self.config().rooms.len();
        let mut i: usize = 0;
        while i < n
            invariant
                self.wf(),
                n == self.spec_config().rooms@.len(),
                i <= n,
                out@.len() == i,
                forall|k: int|
                    0 <= k < i ==> ext_outcome_ok(
                        #[trigger] out@[k],
                        self.sensors(),
                        self.spec_config().rooms@[k],
                    ),
            decreases n - i,
        {
            let room = &self.config().rooms[i];
            let sensor = self.get_recent_sensor_state(room.sensor.device_id.as_str());
            let outcome: RoomOutcome = if room.thermostats.len() == 0 {
                RoomOutcome::Missing { room: room.name.clone() }
            } else {
                match sensor {
                    Some(s) => {
                        let mut payload: Vec<u8> = Vec::new();
                        append_bytes(
                            &mut payload,
                            "{\"external_measured_room_sensor\":".as_bytes(),
                        );
                        append_i64_dec(&mut payload, s.temperature_centi as i64);
                        append_bytes(&mut payload, "}".as_bytes());
                        RoomOutcome::Emit(
                            Command {
                                target: PublishTarget::ThermostatSet {
                                    device_id: room.thermostats[0].device_id.clone(),
                                },
                                payload,
                            },
                        )
                    },
                    None => RoomOutcome::Missing { room: room.name.clone() },
                }
            };
            out.push(outcome);
            i = i + 1;
        }
        out
    }

    /// A read-only consistent view for observability: per room, the name
    /// and whatever readings are stored.
    pub fn snapshot_for_logging(&self) -> (r: Vec<
        (String, Option<SensorState>, Option<ThermostatState>),
    >)
        requires
            self.wf(),
        ensures
            r@.len() == self.spec_config().rooms@.len(),
            forall|i: int|
                0 <= i < r@.len() ==> snapshot_entry_ok(
                    #[trigger] r@[i],
                    self.sensors(),
                    self.thermostats(),
                    self.spec_config().rooms@[i],
                ),
    {
        let mut out: Vec<(String, Option<SensorState>, Option<ThermostatState>)> = Vec::new();
        let n = self.config().rooms.len();
        let mut i: usize = 0;
        while i < n
            invariant
                self.wf(),
                n == self.spec_config().rooms@.len(),
                i <= n,
                out@.len() == i,
                forall|k: int|
                    0 <= k < i ==> snapshot_entry_ok(
                        #[trigger] out@[k],
                        self.sensors(),
                        self.thermostats(),
                        self.spec_config().rooms@[k],
                    ),
            decreases n - i,
        {
            let room = &self.config().rooms[i];
            let sensor: Option<SensorState> = match self.get_recent_sensor_state(
                room.sensor.device_id.as_str(),
            ) {
                Some(s) => Some(*s),
                None => None,
            };
            let thermostat: Option<ThermostatState> = if room.thermostats.len() > 0 {
                match self.get_recent_thermostat_state(room.thermostats[0].device_id.as_str()) {
                    Some(t) => Some(t.duplicate()),
                    None => None,
                }
            } else {
                None
            };
            out.push((room.name.clone(), sensor, thermostat));
            i = i + 1;
        }
        out
    }
}

/// What the observability snapshot owes one room.
pub open spec fn snapshot_entry_ok(
    e: (String, Option<SensorState>, Option<ThermostatState>),
    sensors: Map<Seq<char>, SensorState>,
    thermostats: Map<Seq<char>, ThermostatStateView>,
    room: Room,
) -> bool {
    let sid = room.sensor.device_id@;
    &&& e.0@ == room.name@
    &&& (if sensors.contains_key(sid) {
        e.1 == Some(sensors[sid])
    } else {
        e.1 is None
    })
    &&& (if room.thermostats@.len() > 0 && thermostats.contains_key(
        room.thermostats@[0].device_id@,
    ) {
        e.2 matches Some(t) && t@ == thermostats[room.thermostats@[0].device_id@]
    } else {
        e.2 is None
    })
}

} // verus!
