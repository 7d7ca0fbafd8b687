//! Submission request builder: a pure packaging step over the materials
//! extracted from the shared state store.

use vstd::prelude::*;

verus! {

/// The packaged remote-submission request: settings copied from the
/// benchmark entry, the one-time metadata moved out of it, and the first
/// proof solution entry.
#[derive(Clone, Debug, PartialEq, Eq)]
pub struct SubmissionRequest {
    pub settings: String,
    pub solutions_meta_data: String,
    pub solution_data: String,
}

/// Package the extracted materials. Deterministic and side-effect-free; no
/// failure modes beyond what extraction already raised.
pub fn build_request(settings: String, solutions_meta_data: String, solution_data: String) -> (r:
    SubmissionRequest)
    ensures
        r.settings == settings,
        r.solutions_meta_data == solutions_meta_data,
        r.solution_data == solution_data,
{
    SubmissionRequest { settings, solutions_meta_data, solution_data }
}

} // verus!
