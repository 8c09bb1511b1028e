//! Zone-heating telemetry core: a device-state store fed by a pub/sub
//! ingestion path, and the periodic control logic that reads it.
//!
//! Temperatures travel through this crate as integers in hundredths of a
//! degree Celsius ("centidegrees"), the resolution the wire protocol uses,
//! so every computation here is exact integer arithmetic.

pub mod codec;
pub mod config;
pub mod control;
pub mod ingest;
pub mod laws;
pub mod readings;
pub mod schema;
pub mod shared;
pub mod store;
pub mod text;

use vstd::prelude::*;

verus! {

/// Why a store update was rejected.
#[derive(Clone, Copy, PartialEq, Eq, Structural, Debug)]
pub enum UpdateError {
    /// The device id is neither a configured sensor id nor a configured
    /// thermostat id.
    UnknownDevice,
}

/// Why an inbound transport message was dropped.
#[derive(Clone, Copy, PartialEq, Eq, Structural, Debug)]
pub enum IngestError {
    /// The topic did not split into exactly two `/`-separated segments.
    MalformedTopic,
    /// The device id taken from the topic is not configured.
    UnknownDevice,
    /// The payload did not decode as the schema for the device's kind.
    DecodeError,
}

impl UpdateError {
    /// A short human-readable description, for the logging boundary.
    pub fn describe(&self) -> (r: &'static str)
        ensures r@ == "unknown device id"@,
    {
        "unknown device id"
    }
}

impl IngestError {
    /// A short human-readable description, for the logging boundary.
    pub fn describe(&self) -> (r: &'static str)
        ensures
            *self == IngestError::MalformedTopic ==> r@ == "malformed topic"@,
            *self == IngestError::UnknownDevice ==> r@ == "unknown device id"@,
            *self == IngestError::DecodeError ==> r@ == "payload decode failure"@,
    {
        match self {
            IngestError::MalformedTopic => "malformed topic",
            IngestError::UnknownDevice => "unknown device id",
            IngestError::DecodeError => "payload decode failure",
        }
    }
}

} // verus!
