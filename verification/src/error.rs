use vstd::prelude::*;

verus! {

/// The ways in which an operation of this library can fail.
#[derive(Debug, Clone, Copy, PartialEq, Eq, Structural)]
pub enum Error {
    /// The requested password, or the requested version of it, does not exist.
    NotFound,
    /// A password of that name already has at least one version.
    Conflict,
    /// The storage itself could not be used: its root directory is missing.
    IoFailure,
    /// A length below four, a minimum length that is zero or above the
    /// maximum, or an empty name.
    InvalidParameter,
    /// A bounded resource ran out: the attempts of the length sampler, or the
    /// version numbers of a password.
    Internal,
}

} // verus!
