//! One version of a password.

use crate::password::{Password, PasswordView};
use vstd::prelude::*;

verus! {

/// What a version of a password is: the password as it was, and its number.
pub struct PasswordVersionView {
    pub password: PasswordView,
    pub version: nat,
}

/// A password together with the number of the version that holds it.
#[derive(Debug, Clone, PartialEq, Eq)]
pub struct PasswordVersion {
    password: Password,
    version: u32,
}

impl View for PasswordVersion {
    type V = PasswordVersionView;

    closed spec fn view(&self) -> PasswordVersionView {
        PasswordVersionView { password: self.password@, version: self.version as nat }
    }
}

impl PasswordVersion {
    /// The version numbered `version` of `password`.
    pub fn new(password: Password, version: u32) -> (made: PasswordVersion)
        ensures
            made@ == (PasswordVersionView { password: password@, version: version as nat }),
    {
        PasswordVersion { password, version }
    }

    /// The password as this version holds it.
    pub fn password(&self) -> (password: &Password)
        ensures
            password@ == self@.password,
    {
        &self.password
    }

    /// The number of this version.
    pub fn version(&self) -> (version: u32)
        ensures
            version == self@.version,
    {
        self.version
    }

    /// Moves on to the next version number.
    pub fn register_new_version(&mut self)
        requires
            old(self)@.version < u32::MAX,
        ensures
            final(self)@ == (PasswordVersionView {
                password: old(self)@.password,
                version: old(self)@.version + 1,
            }),
    {
        self.version += 1
    }

    /// The line that shows this version: that of its password.
    pub fn to_string(&self) -> (line: String)
        ensures
            line@ == self@.password.line(),
    {
        self.password.to_string()
    }
}

} // verus!
