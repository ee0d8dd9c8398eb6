//! Settings that the launching process hands to the daemon it starts.

use vstd::prelude::*;

verus! {

/// What the launcher fixes before the daemon runs.
#[derive(Debug)]
pub struct Settings {
    pub config_dir: String,
    pub start_cwd: String,
    pub browser_dir: Option<String>,
    pub app_port: Option<u16>,
    pub app_public: bool,
}

/// The settings, once they are fixed. The first `init` decides; later ones
/// change nothing.
#[derive(Debug)]
pub struct ForkState {
    pub settings: Option<Settings>,
}

/// The state before any `init`.
pub fn unset() -> (r: ForkState)
    ensures
        r.settings is None,
{
    ForkState { settings: None }
}

/// Fixes the settings, unless they are fixed already.
pub fn init(
    state: &mut ForkState,
    config_dir: String,
    start_cwd: String,
    browser_dir: Option<String>,
    app_port: Option<u16>,
    app_public: bool,
)
    ensures
        old(state).settings is Some ==> *final(state) == *old(state),
        old(state).settings is None ==> final(state).settings == Some(
            (Settings { config_dir, start_cwd, browser_dir, app_port, app_public }),
        ),
{
    if state.settings.is_none() {
        state.settings = Some(
            Settings { config_dir, start_cwd, browser_dir, app_port, app_public },
        );
    }
}

/// The configuration directory, once fixed.
pub fn config_dir(state: &ForkState) -> (r: Option<String>)
    ensures
        match state.settings {
            Some(s) => r is Some && r.unwrap()@ == s.config_dir@,
            None => r is None,
        },
{
    match &state.settings {
        Some(s) => Some(s.config_dir.clone()),
        None => None,
    }
}

/// The directory that the launcher ran in, once fixed.
pub fn start_cwd(state: &ForkState) -> (r: Option<String>)
    ensures
        match state.settings {
            Some(s) => r is Some && r.unwrap()@ == s.start_cwd@,
            None => r is None,
        },
{
    match &state.settings {
        Some(s) => Some(s.start_cwd.clone()),
        None => None,
    }
}

/// The directory of development browser files, where one was given.
pub fn browser_dir(state: &ForkState) -> (r: Option<String>)
    ensures
        match state.settings {
            Some(s) => match s.browser_dir {
                Some(d) => r is Some && r.unwrap()@ == d@,
                None => r is None,
            },
            None => r is None,
        },
{
    match &state.settings {
        Some(s) => match &s.browser_dir {
            Some(d) => Some(d.clone()),
            None => None,
        },
        None => None,
    }
}

/// The port of the proxied application, where one was given.
pub fn app_port(state: &ForkState) -> (r: Option<u16>)
    ensures
        r == (match state.settings {
            Some(s) => s.app_port,
            None => None,
        }),
{
    match &state.settings {
        Some(s) => s.app_port,
        None => None,
    }
}

/// Whether the proxied application is open to everyone.
pub fn app_public(state: &ForkState) -> (r: bool)
    ensures
        r == (match state.settings {
            Some(s) => s.app_public,
            None => false,
        }),
{
    match &state.settings {
        Some(s) => s.app_public,
        None => false,
    }
}

} // verus!
