//! The library's top-level error type.

use vstd::prelude::*;
use crate::strutil::{concat_str, copy_str};
use vstd::string::StringExecFns;

verus! {

/// Every failure the library reports to its callers.
#[derive(Debug)]
pub enum SlinkyError {
    Io(String),
    Config(String),
    Stow(String),
    Remote(String),
    Secrets(String),
    InvalidRepoSpec(String),
    PackageNotFound(String),
    TargetNotFound(String),
    Conflict(String),
    Git(String),
    Encryption(String),
    Decryption(String),
    Parse(String),
    Other(String),
}

impl SlinkyError {
    /// A human-readable line for this error: its category followed by
    /// the detail it carries.
    pub fn message(&self) -> (r: String)
        ensures
            match self {
                SlinkyError::Io(s) => r@ == "IO error: "@ + s@,
                SlinkyError::Config(s) => r@ == "Configuration error: "@ + s@,
                SlinkyError::Stow(s) => r@ == "Stow operation failed: "@ + s@,
                SlinkyError::Remote(s) => r@ == "Remote repository error: "@ + s@,
                SlinkyError::Secrets(s) => r@ == "Secrets management error: "@ + s@,
                SlinkyError::InvalidRepoSpec(s) => r@ == "Invalid repository specification: "@
                    + s@,
                SlinkyError::PackageNotFound(s) => r@ == "Package not found: "@ + s@,
                SlinkyError::TargetNotFound(s) => r@ == "Target directory not found: "@ + s@,
                SlinkyError::Conflict(s) => r@ == "Conflict detected: "@ + s@,
                SlinkyError::Git(s) => r@ == "Git error: "@ + s@,
                SlinkyError::Encryption(s) => r@ == "Encryption error: "@ + s@,
                SlinkyError::Decryption(s) => r@ == "Decryption error: "@ + s@,
                SlinkyError::Parse(s) => r@ == "Parse error: "@ + s@,
                SlinkyError::Other(s) => r@ == s@,
            },
    {
        match self {
            SlinkyError::Io(s) => concat_str(String::from_str("IO error: "), s.as_str()),
            SlinkyError::Config(s) => concat_str(
                String::from_str("Configuration error: "),
                s.as_str(),
            ),
            SlinkyError::Stow(s) => concat_str(
                String::from_str("Stow operation failed: "),
                s.as_str(),
            ),
            SlinkyError::Remote(s) => concat_str(
                String::from_str("Remote repository error: "),
                s.as_str(),
            ),
            SlinkyError::Secrets(s) => concat_str(
                String::from_str("Secrets management error: "),
                s.as_str(),
            ),
            SlinkyError::InvalidRepoSpec(s) => concat_str(
                String::from_str("Invalid repository specification: "),
                s.as_str(),
            ),
            SlinkyError::PackageNotFound(s) => concat_str(
                String::from_str("Package not found: "),
                s.as_str(),
            ),
            SlinkyError::TargetNotFound(s) => concat_str(
                String::from_str("Target directory not found: "),
                s.as_str(),
            ),
            SlinkyError::Conflict(s) => concat_str(
                String::from_str("Conflict detected: "),
                s.as_str(),
            ),
            SlinkyError::Git(s) => concat_str(String::from_str("Git error: "), s.as_str()),
            SlinkyError::Encryption(s) => concat_str(
                String::from_str("Encryption error: "),
                s.as_str(),
            ),
            SlinkyError::Decryption(s) => concat_str(
                String::from_str("Decryption error: "),
                s.as_str(),
            ),
            SlinkyError::Parse(s) => concat_str(String::from_str("Parse error: "), s.as_str()),
            SlinkyError::Other(s) => copy_str(s.as_str()),
        }
    }
}

} // verus!
