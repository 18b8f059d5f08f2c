//! The application settings: the network timeout.
use vstd::prelude::*;

verus! {

/// The network timeout when the settings do not set one.
pub const DEFAULT_NETWORK_TIMEOUT_SECS: u64 = 10;

/// The settings kept in the application's configuration directory.
#[derive(Clone, Debug, PartialEq, Eq, Structural)]
pub struct AppSettings {
    pub network_timeout_secs: u64,
}

/// The timeout a settings file without one gets.
pub fn default_network_timeout_secs() -> (r: u64)
    ensures
        r == DEFAULT_NETWORK_TIMEOUT_SECS,
{
    DEFAULT_NETWORK_TIMEOUT_SECS
}

impl Default for AppSettings {
    fn default() -> (s: AppSettings)
        ensures
            s.network_timeout_secs == DEFAULT_NETWORK_TIMEOUT_SECS,
    {
        AppSettings { network_timeout_secs: DEFAULT_NETWORK_TIMEOUT_SECS }
    }
}

/// The settings read from the file: what parsed, or the defaults, which are
/// then written back (`true`) so that the file is valid again.
pub fn settings_or_default(parsed: Option<AppSettings>) -> (r: (AppSettings, bool))
    ensures
        parsed matches Some(s) ==> r.0 == s && !r.1,
        parsed is None ==> r.0.network_timeout_secs == DEFAULT_NETWORK_TIMEOUT_SECS && r.1,
{
    match parsed {
        Some(s) => (s, false),
        None => (AppSettings::default(), true),
    }
}

} // verus!
