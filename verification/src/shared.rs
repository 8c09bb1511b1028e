//! The store behind a verified reader-writer lock: many concurrent
//! readers, or one exclusive writer, never both. A reader borrows one
//! consistent store value for the whole read pass, so no reader can
//! observe a partially applied update; the lock's predicate keeps every
//! stored value a valid store over one fixed configuration.
//!
//! Each method acquires the lock only for the synchronous read or write
//! step and releases it before returning, so callers never hold the lock
//! across a sleep or a network publish.

use vstd::prelude::*;
use vstd::rwlock::RwLock;
use crate::config::Config;
use crate::control::{
    control_outcome_ok, ext_outcome_ok, snapshot_entry_ok, ControlParams, RoomOutcome,
};
use crate::ingest::{
    device_id_bytes, first_id_match, spec_sensor_payload, spec_thermostat_payload,
    well_formed_topic,
};
use crate::readings::{SensorState, ThermostatState};
use crate::store::StateTracker;
use crate::IngestError;
use vstd::string::StringSliceAdditionalSpecFns;

verus! {

/// The device-state store shared between the ingestion task and the
/// periodic read passes.
pub struct SharedStateTracker {
    lock: RwLock<StateTracker, spec_fn(StateTracker) -> bool>,
    config: Ghost<Config>,
}

impl SharedStateTracker {
    /// The fixed configuration every stored value classifies against.
    pub closed spec fn spec_config(&self) -> Config {
        self.config@
    }

    /// Lock-instance validity: exactly the valid stores over the fixed
    /// configuration can ever be stored.
    pub closed spec fn wf(&self) -> bool {
        forall|st: StateTracker|
            #[trigger] self.lock.inv(st) <==> st.wf() && st.spec_config() == self.config@
    }

    /// Share a store.
    pub fn new(store: StateTracker) -> (r: SharedStateTracker)
        requires
            store.wf(),
        ensures
            r.wf(),
            r.spec_config() == store.spec_config(),
    {
        let ghost cfg = store.spec_config();
        let r = SharedStateTracker {
            lock: RwLock::new(
                store,
                Ghost(|st: StateTracker| st.wf() && st.spec_config() == cfg),
            ),
            config: Ghost(cfg),
        };
        r
    }

    /// Consume one raw transport message under the write lock. Which way a
    /// message is classified, and when it is dropped, depends only on the
    /// fixed configuration, the topic, and the payload; so that much holds
    /// here as for `StateTracker::handle`.
    pub fn handle(&self, topic: &str, payload: &[u8]) -> (r: Result<(), IngestError>)
        requires
            self.wf(),
        ensures
            ({
                let tb = topic.spec_bytes();
                let idb = device_id_bytes(tb);
                let sm = first_id_match(self.spec_config().spec_sensor_ids(), idb);
                let tm = first_id_match(self.spec_config().spec_thermostat_ids(), idb);
                match r {
                    Ok(()) => {
                        &&& well_formed_topic(tb)
                        &&& (sm is Some ==> spec_sensor_payload(payload@) is Some)
                        &&& (sm is None ==> tm is Some && spec_thermostat_payload(payload@)
                            is Some)
                    },
                    Err(IngestError::MalformedTopic) => !well_formed_topic(tb),
                    Err(IngestError::UnknownDevice) => well_formed_topic(tb) && sm is None
                        && tm is None,
                    Err(IngestError::DecodeError) => {
                        &&& well_formed_topic(tb)
                        &&& ((sm is Some && spec_sensor_payload(payload@) is None) || (sm is None
                            && tm is Some && spec_thermostat_payload(payload@) is None))
                    },
                }
            }),
    {
        let (mut st, write_handle) = self.lock.acquire_write();
        let r = st.handle(topic, payload);
        write_handle.release_write(st);
        r
    }

    /// One control pass under a read lock: the outcomes are correct for
    /// some valid store value over the fixed configuration.
    pub fn control_pass(&self, params: &ControlParams) -> (r: Vec<RoomOutcome>)
        requires
            self.wf(),
            params.wf(),
        ensures
            r@.len() == self.spec_config().rooms@.len(),
            exists|st: StateTracker|
                {
                    &&& #[trigger] st.wf()
                    &&& st.spec_config() == self.spec_config()
                    &&& forall|i: int|
                        0 <= i < r@.len() ==> control_outcome_ok(
                            #[trigger] r@[i],
                            *params,
                            st.sensors(),
                            st.thermostats(),
                            self.spec_config().rooms@[i],
                        )
                },
    {
        let read_handle = self.lock.acquire_read();
        let r = read_handle.borrow().control_pass(params);
        proof {
            let w = read_handle@;
            assert(w.wf() && w.spec_config() == self.spec_config() && forall|i: int|
                0 <= i < r@.len() ==> control_outcome_ok(
                    #[trigger] r@[i],
                    *params,
                    w.sensors(),
                    w.thermostats(),
                    self.spec_config().rooms@[i],
                ));
        }
        read_handle.release_read();
        r
    }

    /// One external-sensor publication pass under a read lock.
    pub fn external_sensor_pass(&self) -> (r: Vec<RoomOutcome>)
        requires
            self.wf(),
        ensures
            r@.len() == self.spec_config().rooms@.len(),
            exists|st: StateTracker|
                {
                    &&& #[trigger] st.wf()
                    &&& st.spec_config() == self.spec_config()
                    &&& forall|i: int|
                        0 <= i < r@.len() ==> ext_outcome_ok(
                            #[trigger] r@[i],
                            st.sensors(),
                            self.spec_config().rooms@[i],
                        )
                },
    {
        let read_handle = self.lock.acquire_read();
        let r = read_handle.borrow().external_sensor_pass();
        proof {
            let w = read_handle@;
            assert(w.wf() && w.spec_config() == self.spec_config() && forall|i: int|
                0 <= i < r@.len() ==> ext_outcome_ok(
                    #[trigger] r@[i],
                    w.sensors(),
                    self.spec_config().rooms@[i],
                ));
        }
        read_handle.release_read();
        r
    }

    /// One observability snapshot under a read lock.
    pub fn snapshot_for_logging(&self) -> (r: Vec<
        (String, Option<SensorState>, Option<ThermostatState>),
    >)
        requires
            self.wf(),
        ensures
            r@.len() == self.spec_config().rooms@.len(),
            exists|st: StateTracker|
                {
                    &&& #[trigger] st.wf()
                    &&& st.spec_config() == self.spec_config()
                    &&& forall|i: int|
                        0 <= i < r@.len() ==> snapshot_entry_ok(
                            #[trigger] r@[i],
                            st.sensors(),
                            st.thermostats(),
                            self.spec_config().rooms@[i],
                        )
                },
    {
        let read_handle = self.lock.acquire_read();
        let r = read_handle.borrow().snapshot_for_logging();
        proof {
            let w = read_handle@;
            assert(w.wf() && w.spec_config() == self.spec_config() && forall|i: int|
                0 <= i < r@.len() ==> snapshot_entry_ok(
                    #[trigger] r@[i],
                    w.sensors(),
                    w.thermostats(),
                    self.spec_config().rooms@[i],
                ));
        }
        read_handle.release_read();
        r
    }
}

} // verus!
