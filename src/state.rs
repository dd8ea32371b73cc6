use vstd::prelude::*;
use crate::settings::AppSettings;

verus! {

/// The state shared by the command handlers: the current settings. The
/// application owns one and guards it with a lock.
pub struct AppState {
    pub settings: AppSettings,
}

impl AppState {
    /// State holding `settings`.
    pub fn new(settings: AppSettings) -> (r: AppState)
        ensures
            r.settings == settings,
    {
        AppState { settings }
    }
}

} // verus!
