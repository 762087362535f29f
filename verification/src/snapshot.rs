//! What the engine reports about itself: per-display phase and health, and the
//! sensors that have reported.

use vstd::prelude::*;

verus! {

/// Health of one controller of a display's controller chain.
pub struct ControllerHealth {
    pub name: String,
    pub healthy: bool,
}

/// The engine's view of one display.
pub struct DisplaySnapshot {
    pub phase: String,
    pub cmd_gen: u64,
    pub controllers: Vec<ControllerHealth>,
    pub wake_attempts: u64,
    pub last_blank_failed: bool,
}

/// The engine's view of one sensor.
pub struct SensorSnapshot {
    pub id: String,
    pub reported: bool,
}

/// One answer of the engine to a snapshot request.
pub struct StateSnapshot {
    pub displays: Vec<(String, DisplaySnapshot)>,
    pub sensors: Vec<SensorSnapshot>,
}

impl ControllerHealth {
    /// A copy with the same contents.
    pub fn copy(&self) -> (res: Self)
        ensures
            res == *self,
    {
        ControllerHealth { name: self.name.clone(), healthy: self.healthy }
    }
}

/// Whether a display has been commanded at all and every controller it went
/// through is unhealthy. A display without health rows is unproven, not failing.
pub open spec fn all_unhealthy(d: DisplaySnapshot) -> bool {
    d.controllers@.len() > 0 && forall|i: int|
        0 <= i < d.controllers@.len() ==> !(#[trigger] d.controllers@[i]).healthy
}

/// Whether some display of the snapshot is all-unhealthy.
pub open spec fn some_display_failing(s: StateSnapshot) -> bool {
    exists|i: int| 0 <= i < s.displays@.len() && all_unhealthy(#[trigger] s.displays@[i].1)
}

/// Whether a display's controllers are all unhealthy.
pub fn display_failing(d: &DisplaySnapshot) -> (res: bool)
    ensures
        res == all_unhealthy(*d),
{
    if d.controllers.len() == 0 {
        return false;
    }
    let mut i: usize = 0;
    while i < d.controllers.len()
        invariant
            i <= d.controllers@.len(),
            d.controllers@.len() > 0,
            forall|j: int| 0 <= j < i ==> !(#[trigger] d.controllers@[j]).healthy,
        decreases d.controllers@.len() - i,
    {
        if d.controllers[i].healthy {
            return false;
        }
        i = i + 1;
    }
    true
}

/// Whether some display of the snapshot is all-unhealthy.
pub fn any_display_failing(s: &StateSnapshot) -> (res: bool)
    ensures
        res == some_display_failing(*s),
{
    let mut i: usize = 0;
    while i < s.displays.len()
        invariant
            i <= s.displays@.len(),
            forall|j: int| 0 <= j < i ==> !all_unhealthy(#[trigger] s.displays@[j].1),
        decreases s.displays@.len() - i,
    {
        if display_failing(&s.displays[i].1) {
            assert(all_unhealthy(s.displays@[i as int].1));
            return true;
        }
        i = i + 1;
    }
    false
}

/// A display fails exactly if it has controllers and not one of them is healthy;
/// some display fails exactly if one does.
pub proof fn law_one_healthy_controller_is_enough(s: StateSnapshot, i: int, k: int)
    ensures
        0 <= i < s.displays@.len() && 0 <= k < s.displays@[i].1.controllers@.len()
            && s.displays@[i].1.controllers@[k].healthy ==> !all_unhealthy(s.displays@[i].1),
        0 <= i < s.displays@.len() && s.displays@[i].1.controllers@.len() == 0 ==> !all_unhealthy(
            s.displays@[i].1,
        ),
        0 <= i < s.displays@.len() && s.displays@[i].1.controllers@.len() > 0 && (forall|j: int|
            0 <= j < s.displays@[i].1.controllers@.len() ==> !(
            #[trigger] s.displays@[i].1.controllers@[j]).healthy) ==> some_display_failing(s),
        some_display_failing(s) ==> exists|d: int|
            0 <= d < s.displays@.len() && (#[trigger] s.displays@[d]).1.controllers@.len() > 0 && (
            forall|j: int|
                0 <= j < s.displays@[d].1.controllers@.len() ==> !(
                #[trigger] s.displays@[d].1.controllers@[j]).healthy),
{
    if 0 <= i < s.displays@.len() && s.displays@[i].1.controllers@.len() > 0 && (forall|j: int|
        0 <= j < s.displays@[i].1.controllers@.len() ==> !(
        #[trigger] s.displays@[i].1.controllers@[j]).healthy) {
        assert(all_unhealthy(s.displays@[i].1));
    }
    if some_display_failing(s) {
        let d = choose|d: int|
            0 <= d < s.displays@.len() && all_unhealthy(#[trigger] s.displays@[d].1);
        assert(s.displays@[d].1.controllers@.len() > 0);
    }
}

} // verus!
