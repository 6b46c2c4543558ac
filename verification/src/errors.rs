//! Error kinds of the protocol.

use vstd::prelude::*;

verus! {

/// Failure kinds a session can surface.  None of them is retried: the caller
/// aborts the session and starts a fresh one with new randomness.
#[derive(Clone, Copy, Debug, PartialEq, Eq, Structural)]
pub enum FBSError {
    /// An operation was invoked from a state it does not accept.
    ProtocolMisuse,
    /// A received array has the wrong cardinality.
    LengthMismatch,
    /// The subset check revealed cheating; the signer aborts the session.
    CheckFailed,
    /// A modular inverse does not exist.
    NotInvertible,
    /// The unblinding step could not invert the blinding product.
    UnblindFailure,
    /// The verifier rejected a signature.
    VerificationFailed,
}

} // verus!
