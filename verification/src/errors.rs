use vstd::prelude::*;

verus! {

/// The error taxonomy of the reactor core.
///
/// Every kernel-call failure surfaces immediately as `Os` with the platform's
/// last error code; none is retried inside the core. A timeout that elapses,
/// or a read of zero bytes signalling that the peer closed, is a normal
/// return, never an error.
#[derive(Clone, Copy, Debug, PartialEq, Eq, Structural)]
pub enum ElErr {
    /// A failing kernel call (queue creation, registration, wait, read
    /// issuance), carrying the platform's last error code.
    Os(i32),
    /// Write-readiness was requested on the readiness backend: a static
    /// policy violation, not a transient condition.
    Unsupported,
    /// The interest set handed to `register` was empty.
    InvalidArgument,
    /// An internal cross-thread notification channel of the completion
    /// backend failed; fatal to that selector.
    Channel,
}

} // verus!
