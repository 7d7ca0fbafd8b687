//! Bounded-retry benchmark submission protocol.
//!
//! The library covers the verifiable core of submitting locally computed
//! benchmark proof material to a remote verification service: extracting and
//! consuming the one-time submission metadata from shared state, packaging a
//! submission request, and driving a finite retry state machine that
//! reconciles the remote outcome (success, fraud flag, transport failure)
//! against a fixed retry budget and an external error-classification policy.
//!
//! The remote collaborators themselves (submission client, chain-height
//! probe, error classifier) perform I/O and are out of scope here; the
//! orchestration logic is verified over their recorded responses, and the
//! per-attempt decision functions are shared with the unverified driver that
//! talks to the real collaborators.

use vstd::prelude::*;

pub mod state;
pub mod request;
pub mod protocol;

verus! {

/// Upper bound on Submission Client attempts within one orchestrator run.
pub const MAX_RETRIES: u32 = 3;

} // verus!
