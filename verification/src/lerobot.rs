//! The loss-aware bridge for LeRobot-like episodes: what an import refuses and
//! what an export reports as lost.
use vstd::prelude::*;
use crate::text::{owned, texts};

verus! {

#[derive(Clone, Debug, PartialEq)]
pub struct ConversionReport {
    pub lossless: bool,
    pub warnings: Vec<String>,
}

/// An episode is imported unless an observation has an empty state vector; the
/// import itself loses nothing. `state_lengths` holds each observation's state
/// length, in order.
pub fn import_report(state_lengths: &[usize]) -> (r: Result<ConversionReport, String>)
    ensures
        (exists|i: int| 0 <= i < state_lengths@.len() && #[trigger] state_lengths@[i] == 0) ==> (r matches Err(e)
            && e@ == "observation state vectors cannot be empty"@),
        (forall|i: int| 0 <= i < state_lengths@.len() ==> #[trigger] state_lengths@[i] != 0) ==> (r matches Ok(rep)
            && rep.lossless && rep.warnings@.len() == 0),
{
    let mut i: usize = 0;
    while i < state_lengths.len()
        invariant
            i <= state_lengths@.len(),
            forall|j: int| 0 <= j < i ==> #[trigger] state_lengths@[j] != 0,
        decreases state_lengths@.len() - i,
    {
        if state_lengths[i] == 0 {
            return Err(owned("observation state vectors cannot be empty"));
        }
        i = i + 1;
    }
    Ok(ConversionReport { lossless: true, warnings: Vec::new() })
}

/// An export warns when an observation has no camera reference, and is lossless
/// exactly when it has no warning. `camera_counts` holds each observation's number
/// of camera references, in order.
pub fn export_report(camera_counts: &[usize]) -> (r: ConversionReport)
    ensures
        (exists|i: int| 0 <= i < camera_counts@.len() && #[trigger] camera_counts@[i] == 0) ==> texts(r.warnings@)
            == seq!["one or more observations have no camera references"@],
        (forall|i: int| 0 <= i < camera_counts@.len() ==> #[trigger] camera_counts@[i] != 0) ==> r.warnings@.len() == 0,
        r.lossless == (r.warnings@.len() == 0),
{
    let mut missing = false;
    let mut i: usize = 0;
    while i < camera_counts.len()
        invariant
            i <= camera_counts@.len(),
            missing == exists|j: int| 0 <= j < i && #[trigger] camera_counts@[j] == 0,
        decreases camera_counts@.len() - i,
    {
        if camera_counts[i] == 0 {
            missing = true;
        }
        i = i + 1;
    }
    let mut warnings: Vec<String> = Vec::new();
    if missing {
        warnings.push(owned("one or more observations have no camera references"));
        proof {
            assert(texts(warnings@) =~= seq!["one or more observations have no camera references"@]);
        }
    }
    let lossless = warnings.len() == 0;
    ConversionReport { lossless, warnings }
}

} // verus!
