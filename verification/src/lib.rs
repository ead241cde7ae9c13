//! A local password manager: random passwords with guaranteed character-class
//! coverage, kept in a versioned, append-only store.
//!
//! A password is generated from a length that is split at random among four
//! classes of characters, so that each class occurs. A stored password has
//! one folder under the root directory, and in it one file for each version,
//! named by the version's number.
//!
//! The library neither reads nor writes files. A `PasswordRepository` is the
//! image of the directory tree: the caller fills it with what is on disk,
//! lets a command work on it, and writes to disk what the command's reply
//! asks for.

pub mod assoc;
pub mod builders;
pub mod charset;
pub mod cli;
pub mod decimal;
pub mod error;
pub mod flags;
pub mod folder;
pub mod laws;
pub mod length;
pub mod password;
pub mod permutation;
pub mod random;
pub mod repository;
pub mod text;
pub mod version;

pub use builders::PasswordBuilder;
pub use charset::CharClass;
pub use cli::{Command, CommandLineInterface, Effect, Failure, Reply, UsageError};
pub use decimal::{parse_version, render_version};
pub use error::Error;
pub use flags::GetFlags;
pub use length::PasswordLengths;
pub use password::Password;
pub use repository::PasswordRepository;
pub use version::PasswordVersion;
