//! Settings of the terminal's host application.

use vstd::prelude::*;
use vstd::string::StringExecFns;

verus! {

/// What the host application remembers between runs.
#[derive(Debug, PartialEq, Eq)]
pub struct AppSettings {
    /// Where the remote authority is reached.
    pub server_url: String,
    pub window_width: u32,
    pub window_height: u32,
    pub fullscreen: bool,
}

/// `settings` are the ones a terminal starts with before any were saved.
pub open spec fn is_initial(settings: AppSettings) -> bool {
    &&& settings.server_url@ == "http://vopecspos.test/"@
    &&& settings.window_width == 1400
    &&& settings.window_height == 900
    &&& !settings.fullscreen
}

impl Default for AppSettings {
    fn default() -> (r: Self)
        ensures
            is_initial(r),
    {
        AppSettings {
            server_url: String::from_str("http://vopecspos.test/"),
            window_width: 1400,
            window_height: 900,
            fullscreen: false,
        }
    }
}

impl Clone for AppSettings {
    fn clone(&self) -> (r: Self)
        ensures
            r == *self,
    {
        AppSettings {
            server_url: self.server_url.clone(),
            window_width: self.window_width,
            window_height: self.window_height,
            fullscreen: self.fullscreen,
        }
    }
}

impl AppSettings {
    /// The settings to run with: the saved ones where they could be read,
    /// the initial ones where they could not.
    pub fn or_initial(saved: Option<AppSettings>) -> (r: AppSettings)
        ensures
            match saved {
                Some(s) => r == s,
                None => is_initial(r),
            },
    {
        match saved {
            Some(s) => s,
            None => AppSettings::default(),
        }
    }
}

} // verus!
