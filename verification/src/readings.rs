//! The decoded telemetry records.
//!
//! Temperatures, setpoints, and humidities are exact integers in hundredths
//! of a unit ("centi" fields), the protocol's own resolution, so no reading
//! carries floating point. String-valued telemetry fields are kept as the
//! raw payload bytes.

use vstd::prelude::*;
use vstd::string::StringSliceAdditionalSpecFns;
use crate::codec::{bytes_eq, copy_bytes};

verus! {

/// The magnitude bound, in hundredths, accepted for any temperature-like
/// payload field; keeps all downstream arithmetic far from overflow.
pub open spec fn centi_bound() -> int {
    1000000
}

/// Latest telemetry of a zone temperature sensor.
#[derive(Clone, Copy, PartialEq, Eq, Structural, Debug)]
pub struct SensorState {
    /// Battery charge, percent.
    pub battery: u8,
    /// Relative humidity, hundredths of a percent.
    pub humidity_centi: i32,
    /// Radio link quality indicator.
    pub linkquality: u8,
    /// Air temperature, hundredths of a degree Celsius.
    pub temperature_centi: i32,
    /// Supply voltage, millivolts.
    pub voltage: u16,
}

/// Latest telemetry of a radiator thermostat; the fields the control law
/// consumes, plus the window-open flags.
#[derive(Clone, PartialEq, Eq, Debug)]
pub struct ThermostatState {
    /// Whether the valve asks for heat at all.
    pub heat_required: bool,
    /// Heating demand, integer percent in 0..=100.
    pub pi_heating_demand: u8,
    /// Occupied heating setpoint, hundredths of a degree Celsius.
    pub occupied_heating_setpoint_centi: i32,
    /// Window-open detection reported by an external source.
    pub window_open_external: bool,
    /// Window-open detection of the valve itself, a small string
    /// enumeration carried as raw payload bytes.
    pub window_open_internal: Vec<u8>,
}

/// A stored reading is one or the other, fixed by the device's configured
/// kind.
#[derive(Clone, PartialEq, Eq, Debug)]
pub enum DeviceState {
    SensorState(SensorState),
    ThermostatState(ThermostatState),
}

/// The mathematical image of a thermostat reading: the same record with
/// the raw string field as a byte sequence.
pub struct ThermostatStateView {
    pub heat_required: bool,
    pub pi_heating_demand: u8,
    pub occupied_heating_setpoint_centi: i32,
    pub window_open_external: bool,
    pub window_open_internal: Seq<u8>,
}

impl View for ThermostatState {
    type V = ThermostatStateView;

    open spec fn view(&self) -> ThermostatStateView {
        ThermostatStateView {
            heat_required: self.heat_required,
            pi_heating_demand: self.pi_heating_demand,
            occupied_heating_setpoint_centi: self.occupied_heating_setpoint_centi,
            window_open_external: self.window_open_external,
            window_open_internal: self.window_open_internal@,
        }
    }
}

impl ThermostatStateView {
    /// Basic shape every decoded thermostat reading has.
    pub open spec fn wf(self) -> bool {
        &&& self.pi_heating_demand <= 100
        &&& -centi_bound() <= self.occupied_heating_setpoint_centi <= centi_bound()
    }
}

impl ThermostatState {
    /// True exactly when the external flag is set, or the internal field
    /// reads `external_open` or `open`.
    pub open spec fn spec_is_window_open(self) -> bool {
        self.window_open_external || self.window_open_internal@ == "external_open".spec_bytes()
            || self.window_open_internal@ == "open".spec_bytes()
    }

    /// Whether either window-open source reports an open window.
    pub fn is_window_open(&self) -> (r: bool)
        ensures
            r == self.spec_is_window_open(),
    {
        self.window_open_external || bytes_eq(
            self.window_open_internal.as_slice(),
            "external_open".as_bytes(),
        ) || bytes_eq(self.window_open_internal.as_slice(), "open".as_bytes())
    }

    /// Basic shape every decoded thermostat reading has.
    pub open spec fn wf(self) -> bool {
        &&& self.pi_heating_demand <= 100
        &&& -centi_bound() <= self.occupied_heating_setpoint_centi <= centi_bound()
    }

    /// A field-for-field copy.
    pub fn duplicate(&self) -> (r: ThermostatState)
        ensures
            r@ == self@,
    {
        ThermostatState {
            heat_required: self.heat_required,
            pi_heating_demand: self.pi_heating_demand,
            occupied_heating_setpoint_centi: self.occupied_heating_setpoint_centi,
            window_open_external: self.window_open_external,
            window_open_internal: copy_bytes(self.window_open_internal.as_slice()),
        }
    }
}

impl SensorState {
    /// Basic shape every decoded sensor reading has.
    pub open spec fn wf(self) -> bool {
        &&& -centi_bound() <= self.humidity_centi <= centi_bound()
        &&& -centi_bound() <= self.temperature_centi <= centi_bound()
    }
}

} // verus!
