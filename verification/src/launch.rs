//! Launch at login: what to register, and what to make of the answers of the
//! system's registration.
//!
//! The registration itself is the system's; the program around the library
//! asks it and carries out what is decided here.

use vstd::prelude::*;
use vstd::string::StringExecFns;

use crate::paths::{app_bundle_path, bundle_path};

verus! {

/// What is registered for launch at login.
#[derive(Debug, PartialEq, Eq)]
pub struct LaunchSettings {
    pub app_name: String,
    pub app_path: String,
    pub use_launch_agent: bool,
}

/// What to ask of the registration.
#[derive(Clone, Copy, Debug, PartialEq, Eq, Structural)]
pub enum LaunchAction {
    Enable,
    Disable,
}

/// The settings for the executable at `exe_path`: the application is
/// registered by its bundle, under the name `Banzai`, as a launch agent.
/// Without an executable path there is nothing to register.
pub fn create_auto_launch(exe_path: &Option<String>) -> (settings: Option<LaunchSettings>)
    ensures
        match (settings, *exe_path) {
            (Some(s), Some(exe)) => {
                &&& s.app_name@ == "Banzai"@
                &&& s.app_path@ == bundle_path(exe@)
                &&& s.use_launch_agent
            },
            (None, None) => true,
            _ => false,
        },
{
    match exe_path {
        Some(exe) => Some(
            LaunchSettings {
                app_name: String::from_str("Banzai"),
                app_path: app_bundle_path(exe.as_str()),
                use_launch_agent: true,
            },
        ),
        None => None,
    }
}

/// Whether launch at login is on. `answer` is what the registration said when
/// asked: `None` where there is no registration to ask, an error where asking
/// failed. Anything but a plain yes counts as off.
pub fn is_auto_launch_enabled(answer: &Option<Result<bool, String>>) -> (enabled: bool)
    ensures
        enabled == (*answer matches Some(Ok(on)) && on),
{
    match answer {
        Some(Ok(on)) => *on,
        _ => false,
    }
}

/// What to ask of the registration to turn launch at login on or off.
/// `available` says whether there is a registration to ask; without one the
/// request fails with the message `Failed to create auto launch`.
pub fn set_auto_launch(available: bool, enabled: bool) -> (request: Result<LaunchAction, String>)
    ensures
        match request {
            Ok(action) => available && action == if enabled {
                LaunchAction::Enable
            } else {
                LaunchAction::Disable
            },
            Err(message) => !available && message@ == "Failed to create auto launch"@,
        },
{
    if !available {
        Err(String::from_str("Failed to create auto launch"))
    } else if enabled {
        Ok(LaunchAction::Enable)
    } else {
        Ok(LaunchAction::Disable)
    }
}

/// What to ask of the registration to flip launch at login: on where it is
/// off, off where it is on. `answer` is what the registration said when asked
/// for its state, as for [`is_auto_launch_enabled`].
pub fn flip_auto_launch(answer: &Option<Result<bool, String>>) -> (request: Result<
    LaunchAction,
    String,
>)
    ensures
        match request {
            Ok(action) => *answer is Some && action == if *answer matches Some(Ok(on)) && on {
                LaunchAction::Disable
            } else {
                LaunchAction::Enable
            },
            Err(message) => *answer is None && message@ == "Failed to create auto launch"@,
        },
{
    let enabled = is_auto_launch_enabled(answer);
    set_auto_launch(answer.is_some(), !enabled)
}

} // verus!
