//! The shared device-state store: the latest decoded reading per device,
//! keyed by device id and classified once against the room configuration.
//!
//! Entries are held as association lists with distinct keys; the contracts
//! speak of the maps those lists denote (`sensors()`, `thermostats()`).

use vstd::prelude::*;
use crate::config::Config;
use crate::readings::{DeviceState, SensorState, ThermostatState, ThermostatStateView};
use crate::UpdateError;

verus! {

/// The map an association list denotes; later entries shadow earlier ones,
/// which never matters here because keys stay distinct.
pub open spec fn entries_map<T>(s: Seq<(String, T)>) -> Map<Seq<char>, T>
    decreases s.len(),
{
    if s.len() == 0 {
        Map::empty()
    } else {
        entries_map(s.drop_last()).insert(s.last().0@, s.last().1)
    }
}

/// Pairwise-distinct keys.
pub open spec fn distinct_keys<T>(s: Seq<(String, T)>) -> bool {
    forall|i: int, j: int| 0 <= i < j < s.len() ==> s[i].0@ != s[j].0@
}

proof fn lemma_entries_map_dom<T>(s: Seq<(String, T)>, k: Seq<char>)
    ensures
        entries_map(s).contains_key(k) <==> exists|i: int| 0 <= i < s.len() && s[i].0@ == k,
    decreases s.len(),
{
    if s.len() > 0 {
        lemma_entries_map_dom(s.drop_last(), k);
        if entries_map(s).contains_key(k) {
            if s.last().0@ != k {
                let i = choose|i: int| 0 <= i < s.drop_last().len() && s.drop_last()[i].0@ == k;
                assert(s[i].0@ == k);
            }
        }
        if exists|i: int| 0 <= i < s.len() && s[i].0@ == k {
            let i = choose|i: int| 0 <= i < s.len() && s[i].0@ == k;
            if i < s.len() - 1 {
                assert(s.drop_last()[i].0@ == k);
            }
        }
    }
}

proof fn lemma_entries_map_get<T>(s: Seq<(String, T)>, i: int)
    requires
        distinct_keys(s),
        0 <= i < s.len(),
    ensures
        entries_map(s).contains_key(s[i].0@),
        entries_map(s)[s[i].0@] == s[i].1,
    decreases s.len(),
{
    if i == s.len() - 1 {
        lemma_entries_map_dom(s, s[i].0@);
    } else {
        assert(s.drop_last()[i] == s[i]);
        lemma_entries_map_get(s.drop_last(), i);
        assert(s.last().0@ != s[i].0@);
    }
}

proof fn lemma_entries_map_absent<T>(s: Seq<(String, T)>, k: Seq<char>)
    requires
        forall|i: int| 0 <= i < s.len() ==> s[i].0@ != k,
    ensures
        !entries_map(s).contains_key(k),
{
    lemma_entries_map_dom(s, k);
}

proof fn lemma_entries_map_update<T>(s: Seq<(String, T)>, i: int, id: String, v: T)
    requires
        distinct_keys(s),
        0 <= i < s.len(),
        s[i].0@ == id@,
    ensures
        entries_map(s.update(i, (id, v))) =~= entries_map(s).insert(id@, v),
        distinct_keys(s.update(i, (id, v))),
    decreases s.len(),
{
    let s2 = s.update(i, (id, v));
    assert(distinct_keys(s2));
    if i == s.len() - 1 {
        assert(s2.drop_last() =~= s.drop_last());
        assert(s2.last() == (id, v));
    } else {
        assert(s2.drop_last() =~= s.drop_last().update(i, (id, v)));
        assert(s.drop_last()[i] == s[i]);
        lemma_entries_map_update(s.drop_last(), i, id, v);
        assert(s2.last() == s.last());
        assert(s.last().0@ != id@);
    }
}

proof fn lemma_entries_map_push<T>(s: Seq<(String, T)>, id: String, v: T)
    requires
        forall|i: int| 0 <= i < s.len() ==> s[i].0@ != id@,
    ensures
        entries_map(s.push((id, v))) =~= entries_map(s).insert(id@, v),
        distinct_keys(s) ==> distinct_keys(s.push((id, v))),
{
    assert(s.push((id, v)).drop_last() =~= s);
    assert(s.push((id, v)).last() == (id, v));
    if distinct_keys(s) {
        let s2 = s.push((id, v));
        assert forall|i: int, j: int| 0 <= i < j < s2.len() implies s2[i].0@ != s2[j].0@ by {
            if j < s2.len() - 1 {
                assert(s2[i] == s[i] && s2[j] == s[j]);
            } else {
                assert(s2[i] == s[i]);
            }
        }
    }
}

/// The store: one writer (the ingestion path), many readers (the periodic
/// loops). Wrapped in `SharedStateTracker` for actual concurrent use.
pub struct StateTracker {
    sensor_states: Vec<(String, SensorState)>,
    thermostat_states: Vec<(String, ThermostatState)>,
    config: Config,
}

impl StateTracker {
    /// The configuration the store classifies device ids against.
    pub closed spec fn spec_config(&self) -> Config {
        self.config
    }

    /// The room configuration this store was built over.
    pub fn config(&self) -> (r: &Config)
        ensures
            *r == self.spec_config(),
    {
        &self.config
    }

    /// The sensor readings the store currently holds, as a map.
    pub closed spec fn sensors(&self) -> Map<Seq<char>, SensorState> {
        entries_map(self.sensor_states@)
    }

    /// The thermostat readings the store currently holds, as a map.
    pub closed spec fn thermostats(&self) -> Map<Seq<char>, ThermostatStateView> {
        entries_map(
            self.thermostat_states@.map_values(|p: (String, ThermostatState)| (p.0, p.1@)),
        )
    }

    /// Store validity: distinct keys per kind, every key classified against
    /// the configuration, and no sensor id ever holding a thermostat
    /// reading (sensor classification takes priority, as in `update`).
    pub closed spec fn wf(&self) -> bool {
        &&& distinct_keys(self.sensor_states@)
        &&& distinct_keys(
            self.thermostat_states@.map_values(|p: (String, ThermostatState)| (p.0, p.1@)),
        )
        &&& forall|i: int|
            0 <= i < self.sensor_states@.len() ==> self.config.is_sensor_id(
                #[trigger] self.sensor_states@[i].0@,
            )
        &&& forall|i: int|
            0 <= i < self.thermostat_states@.len() ==> self.config.is_thermostat_id(
                #[trigger] self.thermostat_states@[i].0@,
            ) && !self.config.is_sensor_id(self.thermostat_states@[i].0@)
        &&& forall|i: int|
            0 <= i < self.thermostat_states@.len()
                ==> (#[trigger] self.thermostat_states@[i].1@).wf()
        &&& forall|i: int|
            0 <= i < self.sensor_states@.len() ==> (#[trigger] self.sensor_states@[i].1).wf()
    }

    /// An empty store over the given configuration.
    pub fn new(config: Config) -> (r: StateTracker)
        ensures
            r.wf(),
            r.spec_config() == config,
            r.sensors() == Map::<Seq<char>, SensorState>::empty(),
            r.thermostats() == Map::<Seq<char>, ThermostatStateView>::empty(),
    {
        let r = StateTracker { sensor_states: Vec::new(), thermostat_states: Vec::new(), config };
        proof {
            assert(r.thermostat_states@.map_values(|p: (String, ThermostatState)| (p.0, p.1@))
                =~= Seq::<(String, ThermostatStateView)>::empty());
        }
        r
    }

    /// Classify `device_id` against the configuration and replace that
    /// device's reading wholesale; an unconfigured id changes nothing and
    /// reports `UnknownDevice`. Sensor classification is checked first.
    pub fn update(&mut self, device_id: String, reading: DeviceState) -> (r: Result<
        (),
        UpdateError,
    >)
        requires
            old(self).wf(),
            old(self).spec_config().is_sensor_id(device_id@) ==> reading is SensorState && (
            reading matches DeviceState::SensorState(s) && s.wf()),
            !old(self).spec_config().is_sensor_id(device_id@) && old(self).spec_config().is_thermostat_id(
                device_id@,
            ) ==> reading is ThermostatState && (reading matches DeviceState::ThermostatState(t)
                && t@.wf()),
        ensures
            final(self).wf(),
            final(self).spec_config() == old(self).spec_config(),
            match r {
                Ok(()) => {
                    let cfg = old(self).spec_config();
                    &&& (cfg.is_sensor_id(device_id@) || cfg.is_thermostat_id(device_id@))
                    &&& (cfg.is_sensor_id(device_id@) ==> {
                        &&& reading matches DeviceState::SensorState(s) && final(self).sensors()
                            == old(self).sensors().insert(device_id@, s)
                        &&& final(self).thermostats() == old(self).thermostats()
                    })
                    &&& (!cfg.is_sensor_id(device_id@) ==> {
                        &&& reading matches DeviceState::ThermostatState(t)
                            && final(self).thermostats() == old(self).thermostats().insert(
                            device_id@,
                            t@,
                        )
                        &&& final(self).sensors() == old(self).sensors()
                    })
                },
                Err(e) => {
                    let cfg = old(self).spec_config();
                    &&& e == UpdateError::UnknownDevice
                    &&& !cfg.is_sensor_id(device_id@) && !cfg.is_thermostat_id(device_id@)
                    &&& *final(self) == *old(self)
                },
            },
    {
        let is_sensor = contains_string(&self.config.sensor_ids(), &device_id);
        if is_sensor {
            match reading {
                DeviceState::SensorState(s) => {
                    self.put_sensor(device_id, s);
                    Ok(())
                },
                DeviceState::ThermostatState(_) => {
                    // excluded by the precondition
                    proof {
                        assert(false);
                    }
                    Err(UpdateError::UnknownDevice)
                },
            }
        } else if contains_string(&self.config.thermostat_ids(), &device_id) {
            match reading {
                DeviceState::ThermostatState(t) => {
                    self.put_thermostat(device_id, t);
                    Ok(())
                },
                DeviceState::SensorState(_) => {
                    proof {
                        assert(false);
                    }
                    Err(UpdateError::UnknownDevice)
                },
            }
        } else {
            Err(UpdateError::UnknownDevice)
        }
    }

    /// Insert or replace a sensor entry; callers have classified the id.
    fn put_sensor(&mut self, device_id: String, s: SensorState)
        requires
            old(self).wf(),
            old(self).spec_config().is_sensor_id(device_id@),
            s.wf(),
        ensures
            final(self).wf(),
            final(self).spec_config() == old(self).spec_config(),
            final(self).sensors() == old(self).sensors().insert(device_id@, s),
            final(self).thermostats() == old(self).thermostats(),
    {
        match find_key_index(&self.sensor_states, &device_id) {
            Some(i) => {
                proof {
                    lemma_entries_map_update(self.sensor_states@, i as int, device_id, s);
                }
                let slot = &mut self.sensor_states[i];
                *slot = (device_id, s);
            },
            None => {
                proof {
                    lemma_entries_map_push(self.sensor_states@, device_id, s);
                }
                self.sensor_states.push((device_id, s));
            },
        }
    }

    /// Insert or replace a thermostat entry; callers have classified the id.
    fn put_thermostat(&mut self, device_id: String, t: ThermostatState)
        requires
            old(self).wf(),
            old(self).spec_config().is_thermostat_id(device_id@),
            !old(self).spec_config().is_sensor_id(device_id@),
            t@.wf(),
        ensures
            final(self).wf(),
            final(self).spec_config() == old(self).spec_config(),
            final(self).thermostats() == old(self).thermostats().insert(device_id@, t@),
            final(self).sensors() == old(self).sensors(),
    {
        let ghost lifted = self.thermostat_states@.map_values(
            |p: (String, ThermostatState)| (p.0, p.1@),
        );
        match find_key_index(&self.thermostat_states, &device_id) {
            Some(i) => {
                proof {
                    assert(lifted[i as int] == (
                        self.thermostat_states@[i as int].0,
                        self.thermostat_states@[i as int].1@,
                    ));
                    assert(forall|k: int| 0 <= k < lifted.len() ==> lifted[k].0@ == (
                        #[trigger] self.thermostat_states@[k].0
                    )@);
                    lemma_entries_map_update(lifted, i as int, device_id, t@);
                    assert(self.thermostat_states@.update(i as int, (device_id, t)).map_values(
                        |p: (String, ThermostatState)| (p.0, p.1@),
                    ) =~= lifted.update(i as int, (device_id, t@)));
                }
                let slot = &mut self.thermostat_states[i];
                *slot = (device_id, t);
            },
            None => {
                proof {
                    assert(forall|k: int| 0 <= k < lifted.len() ==> lifted[k].0@ == (
                        #[trigger] self.thermostat_states@[k].0
                    )@);
                    lemma_entries_map_push(lifted, device_id, t@);
                    assert(self.thermostat_states@.push((device_id, t)).map_values(
                        |p: (String, ThermostatState)| (p.0, p.1@),
                    ) =~= lifted.push((device_id, t@)));
                }
                self.thermostat_states.push((device_id, t));
            },
        }
    }

    /// The most recent stored sensor reading for the id, if any.
    ///
    /// Readings carry no capture timestamp and are never aged out: the
    /// latest stored reading is served however old it is. Staleness
    /// tracking is deliberately left to a future revision.
    pub fn get_recent_sensor_state(&self, device_id: &str) -> (r: Option<&SensorState>)
        requires
            self.wf(),
        ensures
            match r {
                Some(s) => self.sensors().contains_key(device_id@) && *s
                    == self.sensors().index(device_id@) && s.wf(),
                None => !self.sensors().contains_key(device_id@),
            },
    {
        let key: String = device_id.to_owned();
        match find_key_index(&self.sensor_states, &key) {
            Some(i) => {
                proof {
                    lemma_entries_map_get(self.sensor_states@, i as int);
                }
                Some(&self.sensor_states[i].1)
            },
            None => {
                proof {
                    lemma_entries_map_absent(self.sensor_states@, device_id@);
                }
                None
            },
        }
    }

    /// The most recent stored thermostat reading for the id, if any;
    /// like the sensor getter, without staleness tracking.
    pub fn get_recent_thermostat_state(&self, device_id: &str) -> (r: Option<&ThermostatState>)
        requires
            self.wf(),
        ensures
            match r {
                Some(t) => self.thermostats().contains_key(device_id@) && t@
                    == self.thermostats().index(device_id@) && t@.wf(),
                None => !self.thermostats().contains_key(device_id@),
            },
    {
        let ghost lifted = self.thermostat_states@.map_values(
            |p: (String, ThermostatState)| (p.0, p.1@),
        );
        let key: String = device_id.to_owned();
        match find_key_index(&self.thermostat_states, &key) {
            Some(i) => {
                proof {
                    assert(lifted[i as int] == (
                        self.thermostat_states@[i as int].0,
                        self.thermostat_states@[i as int].1@,
                    ));
                    assert(forall|k: int| 0 <= k < lifted.len() ==> lifted[k].0@ == (
                        #[trigger] self.thermostat_states@[k].0
                    )@);
                    lemma_entries_map_get(lifted, i as int);
                }
                Some(&self.thermostat_states[i].1)
            },
            None => {
                proof {
                    assert(forall|k: int| 0 <= k < lifted.len() ==> lifted[k].0@ == (
                        #[trigger] self.thermostat_states@[k].0
                    )@);
                    lemma_entries_map_absent(lifted, device_id@);
                }
                None
            },
        }
    }
}

/// First index whose key reads the same as `key`, if any.
fn find_key_index<T>(entries: &Vec<(String, T)>, key: &String) -> (r: Option<usize>)
    ensures
        match r {
            Some(i) => i < entries@.len() && entries@[i as int].0@ == key@ && forall|k: int|
                0 <= k < i ==> entries@[k].0@ != key@,
            None => forall|k: int| 0 <= k < entries@.len() ==> entries@[k].0@ != key@,
        },
{
    let n = entries.len();
    let mut i: usize = 0;
    while i < n
        invariant
            n == entries@.len(),
            i <= n,
            forall|k: int| 0 <= k < i ==> entries@[k].0@ != key@,
        decreases n - i,
    {
        if string_eq(&entries[i].0, key) {
            return Some(i);
        }
        i = i + 1;
    }
    None
}

/// String equality through the standard `==`, stated over the views.
fn string_eq(a: &String, b: &String) -> (r: bool)
    ensures
        r == (a@ == b@),
{
    a.eq(b)
}

/// Whether any element of `ids` reads the same as `key`.
fn contains_string(ids: &Vec<String>, key: &String) -> (r: bool)
    ensures
        r == ids@.map_values(|s: String| s@).contains(key@),
{
    let n = ids.len();
    let mut i: usize = 0;
    while i < n
        invariant
            n == ids@.len(),
            i <= n,
            forall|k: int| 0 <= k < i ==> ids@[k]@ != key@,
        decreases n - i,
    {
        if string_eq(&ids[i], key) {
            proof {
                assert(ids@.map_values(|s: String| s@)[i as int] == key@);
            }
            return true;
        }
        i = i + 1;
    }
    proof {
        let mapped = ids@.map_values(|s: String| s@);
        assert forall|k: int| 0 <= k < mapped.len() implies #[trigger] mapped[k] != key@ by {
            assert(mapped[k] == ids@[k]@);
        }
        assert(!mapped.contains(key@));
    }
    false
}

} // verus!
