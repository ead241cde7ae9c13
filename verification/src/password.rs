//! A named secret.

use crate::text::text_of;
use vstd::prelude::*;
use vstd::string::*;

verus! {

/// What a password is: its name and its secret value.
pub struct PasswordView {
    pub name: Seq<char>,
    pub value: Seq<char>,
}

impl PasswordView {
    /// The line that shows the password: its name, a colon, a space, its
    /// value.
    pub open spec fn line(self) -> Seq<char> {
        self.name + seq![':', ' '] + self.value
    }
}

/// The folder in which passwords are kept by default, under the user's home
/// directory `home`: the folder `.password`, joined to `home` by a slash
/// unless `home` is empty or ends in one.
pub open spec fn folder_under(home: Seq<char>) -> Seq<char> {
    if home.len() == 0 || home.last() == '/' {
        home + ".password"@
    } else {
        home + "/"@ + ".password"@
    }
}

/// The directory in which passwords are kept when no other is asked for:
/// `password_home` where one is given, else the default folder under
/// `home`, if the home directory is known.
pub open spec fn default_path_of(
    password_home: Option<Seq<char>>,
    home: Option<Seq<char>>,
) -> Option<Seq<char>> {
    match password_home {
        Some(home_path) => Some(home_path),
        None => match home {
            Some(home) => Some(folder_under(home)),
            None => None,
        },
    }
}

/// A named secret value.
#[derive(Debug, Clone, PartialEq, Eq)]
pub struct Password {
    name: String,
    value: String,
}

impl View for Password {
    type V = PasswordView;

    closed spec fn view(&self) -> PasswordView {
        PasswordView { name: self.name@, value: self.value@ }
    }
}

impl Password {
    /// The password called `name` with the secret `value`.
    pub fn new(name: String, value: String) -> (password: Password)
        ensures
            password@ == (PasswordView { name: name@, value: value@ }),
    {
        Password { name, value }
    }

    /// The name under which the password is kept.
    pub fn name(&self) -> (name: &str)
        ensures
            name@ == self@.name,
    {
        self.name.as_str()
    }

    /// The secret itself.
    pub fn value(&self) -> (value: &str)
        ensures
            value@ == self@.value,
    {
        self.value.as_str()
    }

    /// A copy of the password.
    pub fn duplicate(&self) -> (copy: Password)
        ensures
            copy@ == self@,
    {
        Password { name: self.name.clone(), value: self.value.clone() }
    }

    /// The folder in which passwords are kept by default, under the user's
    /// home directory.
    pub fn home_folder(home: &str) -> (path: String)
        ensures
            path@ == folder_under(home@),
    {
        let length: usize = home.unicode_len();
        let path: String = home.to_owned();
        if length == 0 || home.get_char(length - 1) == '/' {
            path.concat(".password")
        } else {
            path.concat("/").concat(".password")
        }
    }

    /// The directory in which passwords are kept when no other is asked
    /// for: `password_home` where one is given, else the default folder
    /// under `home`, if the home directory is known.
    pub fn default_path(
        password_home: Option<String>,
        home: Option<String>,
    ) -> (path: Option<String>)
        ensures
            text_of(path) == default_path_of(text_of(password_home), text_of(home)),
    {
        match password_home {
            Some(home_path) => Some(home_path),
            None => match home {
                Some(home) => Some(Self::home_folder(home.as_str())),
                None => None,
            },
        }
    }

    /// The line that shows the password: its name, a colon, a space, its value.
    pub fn to_string(&self) -> (line: String)
        ensures
            line@ == self@.line(),
    {
        proof {
            reveal_strlit(": ");
        }
        assert(": "@ =~= seq![':', ' ']);
        self.name.clone().concat(": ").concat(self.value.as_str())
    }
}

} // verus!
