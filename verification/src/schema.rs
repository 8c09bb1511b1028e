//! The payload schemas: which fields a sensor or thermostat record needs,
//! of what shape, and within which ranges.
//!
//! `spec_decode_sensor` / `spec_decode_thermostat` state the schema over the
//! field list the grammar yields; `decode_sensor` / `decode_thermostat` are
//! the executable decoders, proved to return exactly what the schema says.
//! Unknown fields are ignored; a required field that is missing, of the
//! wrong shape, or out of range makes the whole record undecodable.

use vstd::prelude::*;
use vstd::string::StringSliceAdditionalSpecFns;
use crate::codec::{bytes_eq, copy_bytes, fields_view, JsonValue, SpecJson};
use crate::readings::{centi_bound, SensorState, ThermostatState, ThermostatStateView};

verus! {

/// First-match lookup of a key in a field list.
pub open spec fn field_lookup(fs: Seq<(Seq<u8>, SpecJson)>, key: Seq<u8>) -> Option<SpecJson>
    decreases fs.len(),
{
    if fs.len() == 0 {
        None
    } else if fs[0].0 == key {
        Some(fs[0].1)
    } else {
        field_lookup(fs.drop_first(), key)
    }
}

/// The integer a scalar denotes, if it is a number written without a
/// decimal point.
pub open spec fn num_int_val(v: SpecJson) -> Option<int> {
    match v {
        SpecJson::Num { neg, whole, frac_centi, is_int } => {
            if is_int {
                Some(if neg { -whole } else { whole })
            } else {
                None
            }
        },
        _ => None,
    }
}

/// The fixed-point value of a scalar in hundredths, if it is a number.
pub open spec fn num_centi_val(v: SpecJson) -> Option<int> {
    match v {
        SpecJson::Num { neg, whole, frac_centi, is_int } => Some(
            if neg {
                -(whole * 100 + frac_centi)
            } else {
                whole * 100 + frac_centi
            },
        ),
        _ => None,
    }
}

/// An integer-valued field inside `lo..=hi`.
pub open spec fn int_field(fs: Seq<(Seq<u8>, SpecJson)>, key: Seq<u8>, lo: int, hi: int) -> Option<
    int,
> {
    match field_lookup(fs, key) {
        Some(v) => match num_int_val(v) {
            Some(n) => if lo <= n <= hi {
                Some(n)
            } else {
                None
            },
            None => None,
        },
        None => None,
    }
}

/// A number-valued field read in hundredths, within the accepted magnitude.
pub open spec fn centi_field(fs: Seq<(Seq<u8>, SpecJson)>, key: Seq<u8>) -> Option<int> {
    match field_lookup(fs, key) {
        Some(v) => match num_centi_val(v) {
            Some(c) => if -centi_bound() <= c <= centi_bound() {
                Some(c)
            } else {
                None
            },
            None => None,
        },
        None => None,
    }
}

/// A boolean-valued field.
pub open spec fn bool_field(fs: Seq<(Seq<u8>, SpecJson)>, key: Seq<u8>) -> Option<bool> {
    match field_lookup(fs, key) {
        Some(SpecJson::Bool(b)) => Some(b),
        _ => None,
    }
}

/// A string-valued field, as its raw bytes.
pub open spec fn str_field(fs: Seq<(Seq<u8>, SpecJson)>, key: Seq<u8>) -> Option<Seq<u8>> {
    match field_lookup(fs, key) {
        Some(SpecJson::Str(s)) => Some(s),
        _ => None,
    }
}

/// The sensor schema over a parsed field list.
pub open spec fn spec_decode_sensor(fs: Seq<(Seq<u8>, SpecJson)>) -> Option<SensorState> {
    let battery = int_field(fs, "battery".spec_bytes(), 0, 255);
    let humidity = centi_field(fs, "humidity".spec_bytes());
    let linkquality = int_field(fs, "linkquality".spec_bytes(), 0, 255);
    let temperature = centi_field(fs, "temperature".spec_bytes());
    let voltage = int_field(fs, "voltage".spec_bytes(), 0, 65535);
    if battery is Some && humidity is Some && linkquality is Some && temperature is Some
        && voltage is Some {
        Some(
            SensorState {
                battery: battery->Some_0 as u8,
                humidity_centi: humidity->Some_0 as i32,
                linkquality: linkquality->Some_0 as u8,
                temperature_centi: temperature->Some_0 as i32,
                voltage: voltage->Some_0 as u16,
            },
        )
    } else {
        None
    }
}

/// The thermostat schema over a parsed field list.
pub open spec fn spec_decode_thermostat(fs: Seq<(Seq<u8>, SpecJson)>) -> Option<
    ThermostatStateView,
> {
    let heat_required = bool_field(fs, "heat_required".spec_bytes());
    let demand = int_field(fs, "pi_heating_demand".spec_bytes(), 0, 100);
    let setpoint = centi_field(fs, "occupied_heating_setpoint".spec_bytes());
    let window_ext = bool_field(fs, "window_open_external".spec_bytes());
    let window_int = str_field(fs, "window_open_internal".spec_bytes());
    if heat_required is Some && demand is Some && setpoint is Some && window_ext is Some
        && window_int is Some {
        Some(
            ThermostatStateView {
                heat_required: heat_required->Some_0,
                pi_heating_demand: demand->Some_0 as u8,
                occupied_heating_setpoint_centi: setpoint->Some_0 as i32,
                window_open_external: window_ext->Some_0,
                window_open_internal: window_int->Some_0,
            },
        )
    } else {
        None
    }
}

/// First-match lookup over the executable field list.
fn lookup<'a>(fields: &'a Vec<(Vec<u8>, JsonValue)>, key: &[u8]) -> (r: Option<&'a JsonValue>)
    ensures
        match r {
            Some(v) => field_lookup(fields_view(fields@), key@) == Some(v@),
            None => field_lookup(fields_view(fields@), key@) is None,
        },
{
    let mut i: usize = 0;
    proof {
        assert(fields_view(fields@).skip(0) =~= fields_view(fields@));
    }
    while i < fields.len()
        invariant
            i <= fields@.len(),
            field_lookup(fields_view(fields@), key@) == field_lookup(
                fields_view(fields@).skip(i as int),
                key@,
            ),
        decreases fields@.len() - i,
    {
        let ghost rest = fields_view(fields@).skip(i as int);
        proof {
            assert(rest[0] == fields_view(fields@)[i as int]);
            assert(rest.drop_first() =~= fields_view(fields@).skip(i + 1));
        }
        if bytes_eq(fields[i].0.as_slice(), key) {
            return Some(&fields[i].1);
        }
        i = i + 1;
    }
    proof {
        assert(fields_view(fields@).skip(fields@.len() as int).len() == 0);
    }
    None
}

/// Integer field extraction mirroring `int_field`.
fn get_int_field(fields: &Vec<(Vec<u8>, JsonValue)>, key: &[u8], lo: i64, hi: i64) -> (r: Option<
    i64,
>)
    ensures
        match r {
            Some(n) => int_field(fields_view(fields@), key@, lo as int, hi as int) == Some(
                n as int,
            ) && lo <= n <= hi,
            None => int_field(fields_view(fields@), key@, lo as int, hi as int) is None,
        },
{
    match lookup(fields, key) {
        Some(v) => match v {
            JsonValue::Num { neg, whole, frac_centi, is_int } => {
                if !*is_int {
                    return None;
                }
                if *neg && *whole == i64::MIN {
                    // the magnitude does not fit i64; far outside any
                    // accepted range either way
                    return None;
                }
                let n: i64 = if *neg { -(*whole) } else { *whole };
                if lo <= n && n <= hi {
                    Some(n)
                } else {
                    None
                }
            },
            _ => None,
        },
        None => None,
    }
}

/// Fixed-point field extraction mirroring `centi_field`.
fn get_centi_field(fields: &Vec<(Vec<u8>, JsonValue)>, key: &[u8]) -> (r: Option<i32>)
    ensures
        match r {
            Some(c) => centi_field(fields_view(fields@), key@) == Some(c as int) && -1000000 <= c
                <= 1000000,
            None => centi_field(fields_view(fields@), key@) is None,
        },
{
    match lookup(fields, key) {
        Some(v) => match v {
            JsonValue::Num { neg, whole, frac_centi, is_int } => {
                if *whole > 10000000000000000 || *whole < -10000000000000000 {
                    // such a magnitude is far outside the accepted range;
                    // the early exit only keeps the arithmetic in i64
                    return None;
                }
                let mag: i64 = *whole * 100 + (*frac_centi as i64);
                let c: i64 = if *neg { -mag } else { mag };
                if -1000000 <= c && c <= 1000000 {
                    Some(c as i32)
                } else {
                    None
                }
            },
            _ => None,
        },
        None => None,
    }
}

/// Boolean field extraction mirroring `bool_field`.
fn get_bool_field(fields: &Vec<(Vec<u8>, JsonValue)>, key: &[u8]) -> (r: Option<bool>)
    ensures
        match r {
            Some(b) => bool_field(fields_view(fields@), key@) == Some(b),
            None => bool_field(fields_view(fields@), key@) is None,
        },
{
    match lookup(fields, key) {
        Some(v) => match v {
            JsonValue::Bool(b) => Some(*b),
            _ => None,
        },
        None => None,
    }
}

/// String field extraction mirroring `str_field`.
fn get_str_field(fields: &Vec<(Vec<u8>, JsonValue)>, key: &[u8]) -> (r: Option<Vec<u8>>)
    ensures
        match r {
            Some(s) => str_field(fields_view(fields@), key@) == Some(s@),
            None => str_field(fields_view(fields@), key@) is None,
        },
{
    match lookup(fields, key) {
        Some(v) => match v {
            JsonValue::Str(s) => Some(copy_bytes(s.as_slice())),
            _ => None,
        },
        None => None,
    }
}

/// Decode a sensor record from a parsed field list.
pub fn decode_sensor(fields: &Vec<(Vec<u8>, JsonValue)>) -> (r: Option<SensorState>)
    ensures
        r == spec_decode_sensor(fields_view(fields@)),
        r is Some ==> r->Some_0.wf(),
{
    let battery = get_int_field(fields, "battery".as_bytes(), 0, 255);
    let humidity = get_centi_field(fields, "humidity".as_bytes());
    let linkquality = get_int_field(fields, "linkquality".as_bytes(), 0, 255);
    let temperature = get_centi_field(fields, "temperature".as_bytes());
    let voltage = get_int_field(fields, "voltage".as_bytes(), 0, 65535);
    match (battery, humidity, linkquality, temperature, voltage) {
        (Some(b), Some(h), Some(l), Some(t), Some(v)) => Some(
            SensorState {
                battery: b as u8,
                humidity_centi: h,
                linkquality: l as u8,
                temperature_centi: t,
                voltage: v as u16,
            },
        ),
        _ => None,
    }
}

/// Decode a thermostat record from a parsed field list.
pub fn decode_thermostat(fields: &Vec<(Vec<u8>, JsonValue)>) -> (r: Option<ThermostatState>)
    ensures
        match r {
            Some(t) => spec_decode_thermostat(fields_view(fields@)) == Some(t@) && t.wf(),
            None => spec_decode_thermostat(fields_view(fields@)) is None,
        },
{
    let heat_required = get_bool_field(fields, "heat_required".as_bytes());
    let demand = get_int_field(fields, "pi_heating_demand".as_bytes(), 0, 100);
    let setpoint = get_centi_field(fields, "occupied_heating_setpoint".as_bytes());
    let window_ext = get_bool_field(fields, "window_open_external".as_bytes());
    let window_int = get_str_field(fields, "window_open_internal".as_bytes());
    match (heat_required, demand, setpoint, window_ext, window_int) {
        (Some(hr), Some(d), Some(sp), Some(we), Some(wi)) => Some(
            ThermostatState {
                heat_required: hr,
                pi_heating_demand: d as u8,
                occupied_heating_setpoint_centi: sp,
                window_open_external: we,
                window_open_internal: wi,
            },
        ),
        _ => None,
    }
}

} // verus!
