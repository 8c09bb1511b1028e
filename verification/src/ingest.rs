//! The ingestion path: resolve an inbound `(topic, payload)` message to a
//! configured device, decode the payload for that device's kind, and write
//! the reading into the store.
//!
//! The transport convention is a topic of exactly two `/`-separated
//! segments, `<namespace>/<device_id>`; the namespace segment is not
//! interpreted. Contracts speak of the topic's UTF-8 bytes; `/` (0x2f)
//! never occurs inside a multi-byte encoding, so byte and character
//! splitting agree.

use vstd::prelude::*;
use vstd::string::StringSliceAdditionalSpecFns;
use vstd::utf8::encode_utf8;
use crate::codec::{bytes_eq, parse_payload_fields, spec_payload_fields};
use crate::readings::{DeviceState, SensorState, ThermostatStateView};
use crate::schema::{decode_sensor, decode_thermostat, spec_decode_sensor, spec_decode_thermostat};
use crate::store::StateTracker;
use crate::IngestError;

verus! {

/// Position of the first `/` at or after `i`, or the end.
pub open spec fn first_slash(t: Seq<u8>, i: int) -> int
    decreases t.len() - i,
{
    if 0 <= i < t.len() {
        if t[i] == 0x2f {
            i
        } else {
            first_slash(t, i + 1)
        }
    } else {
        i
    }
}

/// Exactly two segments: one `/`, not at the end of nothing -- the byte
/// form of "splitting on `/` yields two pieces".
pub open spec fn well_formed_topic(t: Seq<u8>) -> bool {
    let p = first_slash(t, 0);
    &&& p < t.len()
    &&& first_slash(t, p + 1) == t.len()
}

/// The second segment: everything after the first `/`.
pub open spec fn device_id_bytes(t: Seq<u8>) -> Seq<u8> {
    t.subrange(first_slash(t, 0) + 1, t.len() as int)
}

/// First index whose id encodes to exactly the bytes `idb`.
pub open spec fn first_id_match(ids: Seq<Seq<char>>, idb: Seq<u8>) -> Option<int>
    decreases ids.len(),
{
    if ids.len() == 0 {
        None
    } else if encode_utf8(ids[0]) == idb {
        Some(0int)
    } else {
        match first_id_match(ids.drop_first(), idb) {
            Some(j) => Some(j + 1),
            None => None,
        }
    }
}

/// What a whole payload decodes to under the sensor schema.
pub open spec fn spec_sensor_payload(p: Seq<u8>) -> Option<SensorState> {
    match spec_payload_fields(p) {
        Some(fs) => spec_decode_sensor(fs),
        None => None,
    }
}

/// What a whole payload decodes to under the thermostat schema.
pub open spec fn spec_thermostat_payload(p: Seq<u8>) -> Option<ThermostatStateView> {
    match spec_payload_fields(p) {
        Some(fs) => spec_decode_thermostat(fs),
        None => None,
    }
}

proof fn lemma_first_id_match_some(ids: Seq<Seq<char>>, idb: Seq<u8>)
    requires
        first_id_match(ids, idb) is Some,
    ensures
        0 <= first_id_match(ids, idb)->Some_0 < ids.len(),
        encode_utf8(ids[first_id_match(ids, idb)->Some_0]) == idb,
    decreases ids.len(),
{
    if ids.len() > 0 && encode_utf8(ids[0]) != idb {
        lemma_first_id_match_some(ids.drop_first(), idb);
        assert(ids.drop_first()[first_id_match(ids.drop_first(), idb)->Some_0] == ids[
            first_id_match(ids, idb)->Some_0
        ]);
    }
}

proof fn lemma_first_id_match_none(ids: Seq<Seq<char>>, idb: Seq<u8>)
    requires
        first_id_match(ids, idb) is None,
    ensures
        forall|i: int| 0 <= i < ids.len() ==> encode_utf8(#[trigger] ids[i]) != idb,
    decreases ids.len(),
{
    if ids.len() > 0 {
        lemma_first_id_match_none(ids.drop_first(), idb);
        assert forall|i: int| 0 <= i < ids.len() implies encode_utf8(#[trigger] ids[i])
            != idb by {
            if i > 0 {
                assert(ids.drop_first()[i - 1] == ids[i]);
            }
        }
    }
}

/// Position of the first `/` in `t` at or after `i`, by scan.
fn find_slash(t: &[u8], i: usize) -> (r: usize)
    requires
        i <= t@.len(),
    ensures
        r == first_slash(t@, i as int),
        i <= r <= t@.len(),
{
    let mut k: usize = i;
    while k < t.len() && t[k] != 0x2f
        invariant
            i <= k <= t@.len(),
            first_slash(t@, i as int) == first_slash(t@, k as int),
        decreases t@.len() - k,
    {
        k = k + 1;
    }
    k
}

/// First index of `ids` whose id encodes to `idb`, by scan.
fn find_utf8_match(ids: &Vec<String>, idb: &[u8]) -> (r: Option<usize>)
    ensures
        ({
            let mapped = ids@.map_values(|s: String| s@);
            match r {
                Some(k) => first_id_match(mapped, idb@) == Some(k as int) && k < ids@.len(),
                None => first_id_match(mapped, idb@) is None,
            }
        }),
{
    let ghost mapped = ids@.map_values(|s: String| s@);
    let n = ids.len();
    let mut i: usize = 0;
    proof {
        assert(mapped.skip(0) =~= mapped);
    }
    while i < n
        invariant
            n == ids@.len(),
            i <= n,
            mapped == ids@.map_values(|s: String| s@),
            first_id_match(mapped, idb@) == (match first_id_match(mapped.skip(i as int), idb@) {
                Some(j) => Some(j + i),
                None => None,
            }),
        decreases n - i,
    {
        let ghost rest = mapped.skip(i as int);
        proof {
            assert(rest[0] == mapped[i as int]);
            assert(rest.drop_first() =~= mapped.skip(i + 1));
        }
        if bytes_eq(ids[i].as_str().as_bytes(), idb) {
            proof {
                assert(encode_utf8(mapped[i as int]) == idb@);
            }
            return Some(i);
        }
        i = i + 1;
    }
    proof {
        assert(mapped.skip(n as int).len() == 0);
    }
    None
}

impl StateTracker {
    /// Consume one raw transport message: split the topic, classify the
    /// device id, decode the payload, store the reading. Every failure is
    /// reported, changes nothing, and says exactly why.
    pub fn handle(&mut self, topic: &str, payload: &[u8]) -> (r: Result<(), IngestError>)
        requires
            old(self).wf(),
        ensures
            final(self).wf(),
            final(self).spec_config() == old(self).spec_config(),
            ({
                let tb = topic.spec_bytes();
                let idb = device_id_bytes(tb);
                let cfg = old(self).spec_config();
                let sm = first_id_match(cfg.spec_sensor_ids(), idb);
                let tm = first_id_match(cfg.spec_thermostat_ids(), idb);
                match r {
                    Ok(()) => {
                        &&& well_formed_topic(tb)
                        &&& (sm matches Some(k) ==> {
                            &&& spec_sensor_payload(payload@) matches Some(s)
                            &&& final(self).sensors() == old(self).sensors().insert(
                                cfg.spec_sensor_ids()[k],
                                s,
                            )
                            &&& final(self).thermostats() == old(self).thermostats()
                        })
                        &&& (sm is None ==> {
                            &&& tm matches Some(k)
                            &&& spec_thermostat_payload(payload@) matches Some(t)
                            &&& final(self).thermostats() == old(self).thermostats().insert(
                                cfg.spec_thermostat_ids()[k],
                                t,
                            )
                            &&& final(self).sensors() == old(self).sensors()
                        })
                    },
                    Err(IngestError::MalformedTopic) => {
                        &&& !well_formed_topic(tb)
                        &&& *final(self) == *old(self)
                    },
                    Err(IngestError::UnknownDevice) => {
                        &&& well_formed_topic(tb)
                        &&& sm is None && tm is None
                        &&& *final(self) == *old(self)
                    },
                    Err(IngestError::DecodeError) => {
                        &&& well_formed_topic(tb)
                        &&& ((sm is Some && spec_sensor_payload(payload@) is None) || (sm is None
                            && tm is Some && spec_thermostat_payload(payload@) is None))
                        &&& *final(self) == *old(self)
                    },
                }
            }),
    {
        let tb = topic.as_bytes();
        let p = find_slash(tb, 0);
        if p == tb.len() {
            return Err(IngestError::MalformedTopic);
        }
        let q = find_slash(tb, p + 1);
        if q < tb.len() {
            return Err(IngestError::MalformedTopic);
        }
        let mut idb: Vec<u8> = Vec::new();
        let mut i: usize = p + 1;
        while i < tb.len()
            invariant
                p + 1 <= i <= tb@.len(),
                idb@ =~= tb@.subrange(p + 1, i as int),
            decreases tb@.len() - i,
        {
            idb.push(tb[i]);
            proof {
                assert(idb@ =~= tb@.subrange(p + 1, i + 1));
            }
            i = i + 1;
        }
        proof {
            assert(idb@ == device_id_bytes(topic.spec_bytes()));
        }
        let sids = self.config().sensor_ids();
        match find_utf8_match(&sids, idb.as_slice()) {
            Some(k) => {
                proof {
                    lemma_first_id_match_some(
                        self.spec_config().spec_sensor_ids(),
                        idb@,
                    );
                    assert(self.spec_config().spec_sensor_ids()[k as int] == sids@[k as int]@);
                    assert(self.spec_config().is_sensor_id(sids@[k as int]@));
                }
                let fields = match parse_payload_fields(payload) {
                    Some(fs) => fs,
                    None => {
                        return Err(IngestError::DecodeError);
                    },
                };
                let s = match decode_sensor(&fields) {
                    Some(s) => s,
                    None => {
                        return Err(IngestError::DecodeError);
                    },
                };
                let id = sids[k].clone();
                match self.update(id, DeviceState::SensorState(s)) {
                    Ok(()) => Ok(()),
                    Err(_) => {
                        proof {
                            assert(false);
                        }
                        Err(IngestError::UnknownDevice)
                    },
                }
            },
            None => {
                let tids = self.config().thermostat_ids();
                match find_utf8_match(&tids, idb.as_slice()) {
                    Some(k) => {
                        proof {
                            lemma_first_id_match_some(
                                self.spec_config().spec_thermostat_ids(),
                                idb@,
                            );
                            assert(self.spec_config().spec_thermostat_ids()[k as int] == tids@[
                                k as int
                            ]@);
                            assert(self.spec_config().is_thermostat_id(tids@[k as int]@));
                            lemma_first_id_match_none(
                                self.spec_config().spec_sensor_ids(),
                                idb@,
                            );
                            if self.spec_config().is_sensor_id(tids@[k as int]@) {
                                let j = choose|j: int|
                                    0 <= j < self.spec_config().spec_sensor_ids().len()
                                        && self.spec_config().spec_sensor_ids()[j] == tids@[
                                        k as int
                                    ]@;
                                assert(encode_utf8(self.spec_config().spec_sensor_ids()[j])
                                    == idb@);
                                assert(false);
                            }
                        }
                        let fields = match parse_payload_fields(payload) {
                            Some(fs) => fs,
                            None => {
                                return Err(IngestError::DecodeError);
                            },
                        };
                        let t = match decode_thermostat(&fields) {
                            Some(t) => t,
                            None => {
                                return Err(IngestError::DecodeError);
                            },
                        };
                        let id = tids[k].clone();
                        match self.update(id, DeviceState::ThermostatState(t)) {
                            Ok(()) => Ok(()),
                            Err(_) => {
                                proof {
                                    assert(false);
                                }
                                Err(IngestError::UnknownDevice)
                            },
                        }
                    },
                    None => Err(IngestError::UnknownDevice),
                }
            },
        }
    }
}

} // verus!
