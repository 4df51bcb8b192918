use vstd::prelude::*;

verus! {

/// Failures that the link and the deployment pipeline report. A port that
/// fails to open and a presence check that fails are not errors here: they are
/// the link events `OpenFailed` (retried) and `CheckFailed` (taken as absence).
#[derive(Clone, Debug, PartialEq, Eq)]
pub enum LinkError {
    /// The cross-compiler failed; carries its diagnostic output.
    CompileError(String),
    /// The transport went away in the middle of an operation.
    LinkLost,
    /// A handshake or a terminator was not observed within the bound.
    ProtocolTimeout,
    /// The device answered a transfer with something other than its
    /// acknowledgement.
    NotAcknowledged,
}

} // verus!
