//! What a caller may ask of a lookup.

use vstd::prelude::*;

verus! {

/// The options of a lookup.
#[derive(Debug, Clone, Copy, PartialEq, Eq)]
pub struct GetFlags {
    /// The version that is wanted; the latest one when none is given.
    pub version: Option<u32>,
}

impl Default for GetFlags {
    /// The options that ask for the latest version.
    fn default() -> (flags: GetFlags)
        ensures
            flags.version is None,
    {
        GetFlags { version: None }
    }
}

impl GetFlags {
    /// The options that ask for the latest version.
    pub fn new() -> (flags: GetFlags)
        ensures
            flags.version is None,
    {
        GetFlags { version: None }
    }
}

} // verus!
