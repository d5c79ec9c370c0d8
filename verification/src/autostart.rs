//! The decisions of the autostart command. Registering the monitor with the
//! session is left to the caller; what to register, and whether, is decided
//! here.

use crate::error::CommandError;
use crate::store::LachesStore;
use crate::text::str_eq;
use crate::utils::{decimal, decimal_string};
use vstd::prelude::*;
use vstd::string::*;

verus! {

/// What the autostart command has to do.
#[derive(Debug, Clone, Copy, PartialEq, Eq, Structural)]
pub enum AutostartStep {
    /// Register the monitor.
    Enable,
    /// Remove the registration.
    Disable,
    /// Nothing: the monitor is registered already.
    AlreadyEnabled,
    /// Nothing: the monitor is not registered.
    AlreadyDisabled,
}

/// What an autostart option asks for: `yes` to register, `no` to remove.
pub open spec fn toggle_named(toggle: Seq<char>) -> Option<bool> {
    if toggle == "yes"@ {
        Some(true)
    } else if toggle == "no"@ {
        Some(false)
    } else {
        None
    }
}

/// Reads an autostart option: `yes` or `no`, nothing else.
pub fn parse_toggle(toggle: &str) -> (r: Result<bool, CommandError>)
    ensures
        match toggle_named(toggle@) {
            Some(wanted) => r == Ok::<bool, CommandError>(wanted),
            None => r == Err::<bool, CommandError>(CommandError::InvalidAutostartOption),
        },
{
    if str_eq(toggle, "yes") {
        Ok(true)
    } else if str_eq(toggle, "no") {
        Ok(false)
    } else {
        Err(CommandError::InvalidAutostartOption)
    }
}

/// What is to be done, given what is wanted and whether the monitor is
/// registered now.
pub fn autostart_step(wanted: bool, enabled: bool) -> (r: AutostartStep)
    ensures
        r == if wanted {
            if enabled {
                AutostartStep::AlreadyEnabled
            } else {
                AutostartStep::Enable
            }
        } else {
            if enabled {
                AutostartStep::Disable
            } else {
                AutostartStep::AlreadyDisabled
            }
        },
{
    if wanted {
        if enabled {
            AutostartStep::AlreadyEnabled
        } else {
            AutostartStep::Enable
        }
    } else {
        if enabled {
            AutostartStep::Disable
        } else {
            AutostartStep::AlreadyDisabled
        }
    }
}

/// The arguments with which the monitor is started: its period in seconds
/// and the path of the store file.
pub fn monitor_arguments(store: &LachesStore, store_file: &str) -> (r: Vec<String>)
    ensures
        r@.len() == 2,
        r@[0]@ == decimal(store.update_interval as nat),
        r@[1]@ == store_file@,
{
    let mut arguments: Vec<String> = Vec::new();
    arguments.push(decimal_string(store.update_interval));
    arguments.push(String::from_str(store_file));
    arguments
}

} // verus!
