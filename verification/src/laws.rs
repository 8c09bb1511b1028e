//! Relations between the public operations, stated and proved once over
//! the store's map model and the control law.

use vstd::prelude::*;
use crate::control::{max_adjustment_centi, spec_adjustment, ControlParams};
use crate::readings::{SensorState, ThermostatStateView};
use crate::store::StateTracker;

verus! {

/// After a successful sensor update (`post.sensors()` is the pre-state map
/// with the reading inserted, which is what `update` ensures), reading the
/// same id returns exactly the stored value: what `get_recent_sensor_state`
/// then reports is `v`, with no merging.
pub proof fn lemma_update_then_latest_sensor(
    pre: StateTracker,
    post: StateTracker,
    id: String,
    v: SensorState,
)
    requires
        post.sensors() == pre.sensors().insert(id@, v),
    ensures
        post.sensors().contains_key(id@),
        post.sensors()[id@] == v,
{
}

/// A second successful update for the same id fully replaces the first:
/// the store after both updates is the store after only the second.
pub proof fn lemma_second_update_replaces_sensor(
    s0: StateTracker,
    s1: StateTracker,
    s2: StateTracker,
    id: String,
    v1: SensorState,
    v2: SensorState,
)
    requires
        s1.sensors() == s0.sensors().insert(id@, v1),
        s2.sensors() == s1.sensors().insert(id@, v2),
    ensures
        s2.sensors() == s0.sensors().insert(id@, v2),
{
    assert(s0.sensors().insert(id@, v1).insert(id@, v2) =~= s0.sensors().insert(id@, v2));
}

/// The same two facts for thermostat readings.
pub proof fn lemma_update_then_latest_thermostat(
    pre: StateTracker,
    post: StateTracker,
    id: String,
    v: ThermostatStateView,
)
    requires
        post.thermostats() == pre.thermostats().insert(id@, v),
    ensures
        post.thermostats().contains_key(id@),
        post.thermostats()[id@] == v,
{
}

/// `heat_required == false` forces the off sentinel whatever the demand,
/// setpoint, or sensor temperature say; and the sentinel's magnitude
/// strictly exceeds every adjustment the proportional path can produce, so
/// it dominates arithmetic downstream.
pub proof fn lemma_override_dominates(params: ControlParams)
    requires
        params.wf(),
    ensures
        forall|d: int, sp: int, se: int|
            #[trigger] spec_adjustment(params, false, d, sp, se)
                == params.off_adjustment_centi,
        forall|d: int, sp: int, se: int|
            0 <= #[trigger] spec_adjustment(params, true, d, sp, se)
                <= max_adjustment_centi(),
        forall|d: int, sp: int, se: int|
            abs_of(spec_adjustment(params, true, d, sp, se)) < abs_of(
                params.off_adjustment_centi as int,
            ),
{
    assert forall|d: int, sp: int, se: int|
        0 <= #[trigger] spec_adjustment(params, true, d, sp, se)
            <= max_adjustment_centi() by {
        let raw = (sp - se) * (d - params.demand_threshold_pct) / (
        100 - params.demand_threshold_pct);
        if d > params.demand_threshold_pct {
            assert(spec_adjustment(params, true, d, sp, se) == if raw < 0 {
                0int
            } else if raw > max_adjustment_centi() {
                max_adjustment_centi()
            } else {
                raw
            });
        }
    }
}

/// Magnitude of an integer.
pub open spec fn abs_of(x: int) -> int {
    if x < 0 {
        -x
    } else {
        x
    }
}

} // verus!
