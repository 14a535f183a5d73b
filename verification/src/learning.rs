//! Active Learning vocabulary: failure categories, promotion stages and errors.
use vstd::prelude::*;

verus! {

#[derive(Clone, Copy, Debug, PartialEq, Eq, Structural)]
pub enum FailureCategory {
    PerceptionFailure,
    PlanningFailure,
    ManipulationFailure,
    NavigationFailure,
    SafetyRejection,
    CapabilityFailure,
    Timeout,
    EnvironmentChange,
    Unknown,
}

/// How far a learned change has been promoted.
#[derive(Clone, Copy, Debug, PartialEq, Eq, Structural)]
pub enum LearningStage {
    Experiment,
    Candidate,
    SimValidated,
    HilValidated,
    HardwareValidated,
    Production,
}

#[derive(Clone, Copy, Debug, PartialEq, Eq, Structural)]
pub enum LearningError {
    SafetyEnvelope,
    AttemptBudgetExhausted,
    Overfit,
}

} // verus!
