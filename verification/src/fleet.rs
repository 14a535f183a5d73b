//! Fleet scheduling outcomes.
use vstd::prelude::*;
use crate::domain::{satisfies, CapabilityManifest, Health};
use crate::text::text_eq;

verus! {

#[derive(Clone, Copy, Debug, PartialEq, Eq, Structural)]
pub enum FleetError {
    NoCompatibleRobot,
}


/// Whether a robot may be assigned a task, apart from its battery level: it is
/// connected and healthy, belongs to the requested group when one is named, and
/// supports every requirement.
pub fn eligible(
    connected: bool,
    health: Health,
    robot_group: &str,
    capabilities: &CapabilityManifest,
    requirements: &[&str],
    group: Option<&str>,
) -> (b: bool)
    ensures
        b == (connected && health == Health::Healthy && (group matches Some(g) ==> robot_group@ == g@)
            && forall|i: int| 0 <= i < requirements@.len() ==> satisfies(
            capabilities.capabilities.as_set(),
            #[trigger] requirements@[i]@,
        )),
{
    if !connected || health != Health::Healthy {
        return false;
    }
    match group {
        Some(g) => {
            if !text_eq(robot_group, g) {
                return false;
            }
        },
        None => {},
    }
    let mut i: usize = 0;
    while i < requirements.len()
        invariant
            i <= requirements@.len(),
            forall|j: int| 0 <= j < i ==> satisfies(capabilities.capabilities.as_set(), #[trigger] requirements@[j]@),
        decreases requirements@.len() - i,
    {
        if !capabilities.supports(requirements[i]) {
            return false;
        }
        i = i + 1;
    }
    true
}

} // verus!
