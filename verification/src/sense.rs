//! SenseHopping vocabulary: what information a task needs, under which
//! conditions, and the plan that routes it to a sensor.
use vstd::prelude::*;

verus! {

#[derive(Clone, Copy, Debug, PartialEq, Eq, Structural, PartialOrd, Ord)]
pub enum InformationType {
    ObstacleDistance,
    SpatialGeometry,
    ObjectIdentity,
    NearFieldClearance,
    DoorGeometry,
}

#[derive(Clone, Copy, Debug, PartialEq, Eq, Structural)]
pub enum EnvironmentCondition {
    Normal,
    LowLight,
    ReflectiveSurfaces,
    HighAcousticNoise,
}

/// The sensors chosen for a requirement: a primary, an optional runner-up, and the
/// providers whose readings are fused.
#[derive(Clone, Debug)]
pub struct SensePlan {
    pub requirement: InformationType,
    pub primary: String,
    pub secondary: Option<String>,
    pub fused: Vec<String>,
    pub reason: String,
}

#[derive(Clone, Debug, PartialEq, Eq)]
pub enum SenseError {
    NoProvider(InformationType),
}

/// Whether readings are fused: under reflective surfaces, or when the primary is
/// not confident enough, as long as there is a runner-up.
pub open spec fn should_fuse(condition: EnvironmentCondition, primary_confident: bool, has_secondary: bool) -> bool {
    (condition == EnvironmentCondition::ReflectiveSurfaces && has_secondary) || (!primary_confident && has_secondary)
}

/// Decides fusion for a routed plan; `primary_confident` tells whether the primary
/// provider's confidence reaches the fusion threshold.
pub fn fuse_readings(condition: EnvironmentCondition, primary_confident: bool, has_secondary: bool) -> (b: bool)
    ensures
        b == should_fuse(condition, primary_confident, has_secondary),
{
    (condition == EnvironmentCondition::ReflectiveSurfaces && has_secondary) || (!primary_confident && has_secondary)
}

} // verus!
