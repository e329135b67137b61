//! Error taxonomy of the node and the transport status code each error
//! surfaces as. Probe and broadcast failures are never surfaced to a caller;
//! they only drive local registry mutation or are dropped.

use vstd::prelude::*;
use vstd::string::StringExecFns;

verus! {

/// Everything that can go wrong while serving an operation.
#[derive(Clone, Copy, Debug, PartialEq, Eq, Structural)]
pub enum NodeError {
    /// Malformed or missing input.
    Validation,
    /// Duplicate receipt identifier or duplicate peer registration.
    Conflict,
    /// Missing receipt.
    NotFound,
    /// The prover capability failed.
    Compute,
    /// A locally produced receipt failed the node's own re-verification;
    /// it is never stored or broadcast.
    Verification,
    /// A peer-supplied receipt failed verification; it is never persisted.
    VerificationFailed,
    /// A peer was unreachable during a probe or a broadcast push.
    Transport,
    /// The backing store failed.
    Storage,
}

/// The status code an error surfaces as. Caller faults are reported in the
/// 400 range; the node's own faults in the 500 range. A transport error is
/// never actually surfaced; its code is a defensive default.
pub open spec fn spec_status_code(e: NodeError) -> u16 {
    match e {
        NodeError::Validation => 400,
        NodeError::Conflict => 409,
        NodeError::NotFound => 404,
        NodeError::Compute => 500,
        NodeError::Verification => 500,
        NodeError::VerificationFailed => 422,
        NodeError::Transport => 502,
        NodeError::Storage => 500,
    }
}

/// A short explanatory payload for each error.
pub open spec fn spec_describe(e: NodeError) -> Seq<char> {
    match e {
        NodeError::Validation => "malformed or missing input"@,
        NodeError::Conflict => "already exists"@,
        NodeError::NotFound => "not found"@,
        NodeError::Compute => "circuit execution failed"@,
        NodeError::Verification => "self-verification of a produced receipt failed"@,
        NodeError::VerificationFailed => "receipt failed verification"@,
        NodeError::Transport => "peer unreachable"@,
        NodeError::Storage => "storage failure"@,
    }
}

impl NodeError {
    /// The status code this error surfaces as.
    pub fn status_code(&self) -> (r: u16)
        ensures
            r == spec_status_code(*self),
    {
        match self {
            NodeError::Validation => 400,
            NodeError::Conflict => 409,
            NodeError::NotFound => 404,
            NodeError::Compute => 500,
            NodeError::Verification => 500,
            NodeError::VerificationFailed => 422,
            NodeError::Transport => 502,
            NodeError::Storage => 500,
        }
    }

    /// The explanatory payload this error surfaces with.
    pub fn describe(&self) -> (r: String)
        ensures
            r@ == spec_describe(*self),
    {
        match self {
            NodeError::Validation => String::from_str("malformed or missing input"),
            NodeError::Conflict => String::from_str("already exists"),
            NodeError::NotFound => String::from_str("not found"),
            NodeError::Compute => String::from_str("circuit execution failed"),
            NodeError::Verification => String::from_str(
                "self-verification of a produced receipt failed",
            ),
            NodeError::VerificationFailed => String::from_str("receipt failed verification"),
            NodeError::Transport => String::from_str("peer unreachable"),
            NodeError::Storage => String::from_str("storage failure"),
        }
    }
}

} // verus!
