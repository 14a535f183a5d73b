//! StructureScan vocabulary and versioned structure changes. Only visible and
//! instrument-accessible structure is modelled.
use vstd::prelude::*;
use crate::text::owned;

verus! {

#[derive(Clone, Copy, Debug, PartialEq, Eq, Structural)]
pub enum StructureKind {
    Wall,
    Door,
    Window,
    Floor,
    Ceiling,
    Column,
    Panel,
    Cabinet,
    Opening,
    UnknownSurface,
}

#[derive(Clone, Copy, Debug, PartialEq, Eq, Structural)]
pub enum MaterialCategory {
    WoodLike,
    Glass,
    Metal,
    GypsumDrywallLike,
    ConcreteMasonryLike,
    Plastic,
    Composite,
    Unknown,
}

#[derive(Clone, Copy, Debug, PartialEq, Eq, Structural)]
pub enum DoorState {
    Open,
    Closed,
    Obstructed,
    Unknown,
}

#[derive(Clone, Debug, PartialEq, Eq)]
pub enum StructureChange {
    DoorState { id: String, previous: DoorState, current: DoorState },
    Added(String),
    Removed(String),
}

/// What changed between two revisions of a structure model.
#[derive(Clone, Debug)]
pub struct StructureDiff {
    pub from_revision: u64,
    pub to_revision: u64,
    pub changes: Vec<StructureChange>,
}

/// The diff of setting door `id` from `previous` to `current` in a model at
/// `revision`: the model moves to the next revision and records one door change.
pub fn door_change(revision: u64, id: &str, previous: DoorState, current: DoorState) -> (d: StructureDiff)
    requires
        revision < u64::MAX,
    ensures
        d.from_revision == revision,
        d.to_revision == revision + 1,
        d.changes@.len() == 1,
        d.changes@[0] matches StructureChange::DoorState { id: i, previous: p, current: c }
            && i@ == id@ && p == previous && c == current,
{
    let mut changes: Vec<StructureChange> = Vec::new();
    changes.push(StructureChange::DoorState { id: owned(id), previous, current });
    StructureDiff { from_revision: revision, to_revision: revision + 1, changes }
}

} // verus!
