//! Service-manager bookkeeping: the errors of service installation
//! and the well-known unit-file paths, as functions of the home
//! directory.

use vstd::prelude::*;
use vstd::string::StringExecFns;
use crate::strutil::{concat_str, copy_str};

verus! {

/// The service layer's errors.
#[derive(Debug)]
pub enum ServiceError {
    Io(String),
    UnsupportedPlatform,
    AlreadyInstalled,
    NotInstalled,
    CommandFailed(String),
}

impl ServiceError {
    /// A human-readable line for this error.
    pub fn message(&self) -> (r: String)
        ensures
            match self {
                ServiceError::Io(s) => r@ == "IO error: "@ + s@,
                ServiceError::UnsupportedPlatform => r@ == "Unsupported platform"@,
                ServiceError::AlreadyInstalled => r@ == "Service already installed"@,
                ServiceError::NotInstalled => r@ == "Service not installed"@,
                ServiceError::CommandFailed(s) => r@ == "Command failed: "@ + s@,
            },
    {
        match self {
            ServiceError::Io(s) => concat_str(String::from_str("IO error: "), s.as_str()),
            ServiceError::UnsupportedPlatform => String::from_str("Unsupported platform"),
            ServiceError::AlreadyInstalled => String::from_str("Service already installed"),
            ServiceError::NotInstalled => String::from_str("Service not installed"),
            ServiceError::CommandFailed(s) => concat_str(
                String::from_str("Command failed: "),
                s.as_str(),
            ),
        }
    }
}

/// The launchd agent's plist path under a home directory.
pub fn launchd_plist_path(home: &str) -> (r: String)
    ensures
        r@ == home@ + "/Library/LaunchAgents/com.slinky.daemon.plist"@,
{
    concat_str(copy_str(home), "/Library/LaunchAgents/com.slinky.daemon.plist")
}

/// The systemd user unit's path under a home directory.
pub fn systemd_service_path(home: &str) -> (r: String)
    ensures
        r@ == home@ + "/.config/systemd/user/slinky.service"@,
{
    concat_str(copy_str(home), "/.config/systemd/user/slinky.service")
}

} // verus!
