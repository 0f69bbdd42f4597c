//! What differs between platforms, and the names of the files a session
//! keeps.

use vstd::prelude::*;

verus! {

/// The platforms that are told apart.
#[derive(Debug, Clone, Copy, PartialEq, Eq, Structural)]
pub enum Platform {
    Windows,
    MacOs,
    Linux,
}

/// The marker file: it holds the process id of the session that is active.
pub const MARKER_FILE: &'static str = "flowmode.pid";

/// The session log.
pub const LOG_FILE: &'static str = "log.csv";

/// The configuration file.
pub const CONFIG_FILE: &'static str = "config.toml";

/// The environment variable that overrides the hosts file.
pub const HOSTS_OVERRIDE_VARIABLE: &'static str = "FLOWMODE_TEST_HOSTS_FILE";

/// The directory under the user's home that holds the fallback hosts file.
pub const FALLBACK_DIRECTORY: &'static str = ".flowmode";

/// The name of the fallback hosts file in that directory.
pub const FALLBACK_FILE: &'static str = "hosts";

/// The fallback hosts file where no home is known.
pub const FALLBACK_WITHOUT_HOME: &'static str = "flowmode_hosts";

/// What a session posts to the webhook when it starts.
pub const WEBHOOK_NOTICE: &'static str = "In flow mode, will reply later.";

/// The path of the privileged hosts file of a platform.
pub fn system_hosts_path(platform: Platform) -> (path: &'static str)
    ensures
        path@ == match platform {
            Platform::Windows => "C:\\Windows\\System32\\drivers\\etc\\hosts"@,
            _ => "/etc/hosts"@,
        },
{
    match platform {
        Platform::Windows => "C:\\Windows\\System32\\drivers\\etc\\hosts",
        _ => "/etc/hosts",
    }
}

/// Where the fallback hosts file lies. `T` is what a directory is given
/// as: the environment's own value, taken over as it is.
#[derive(Debug, Clone, PartialEq, Eq)]
pub enum FallbackLocation<T> {
    /// In `FALLBACK_DIRECTORY` under this home, as `FALLBACK_FILE`.
    UnderHome { home: T },
    /// In the working directory, as `FALLBACK_WITHOUT_HOME`.
    WorkingDirectory,
}

/// Decides where the fallback hosts file lies: under the home directory,
/// else under the user profile, else in the working directory.
pub fn fallback_location<T>(home: Option<T>, user_profile: Option<T>) -> (location:
    FallbackLocation<T>)
    ensures
        match (home, user_profile) {
            (Some(h), _) => location == (FallbackLocation::UnderHome { home: h }),
            (None, Some(p)) => location == (FallbackLocation::UnderHome { home: p }),
            (None, None) => location == FallbackLocation::<T>::WorkingDirectory,
        },
{
    match home {
        Some(h) => FallbackLocation::UnderHome { home: h },
        None => match user_profile {
            Some(p) => FallbackLocation::UnderHome { home: p },
            None => FallbackLocation::WorkingDirectory,
        },
    }
}

} // verus!
