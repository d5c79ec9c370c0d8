//! The actions that the command line asks for, as plain values.

use vstd::prelude::*;

verus! {

/// What to do with the configuration.
#[derive(Debug)]
pub enum ConfigAction {
    Show,
    SetStorePath { path: String },
    Autostart { toggle: String },
    Mode { mode: String },
    Whitelist { action: FilterListAction },
    Blacklist { action: FilterListAction },
}

/// What to do with the recorded data.
#[derive(Debug)]
pub enum DataAction {
    Export { output: String, duration: Option<String>, all_machines: bool },
    Delete { all: bool, duration: Option<String> },
    Reset,
}

/// What to do with the whitelist or the blacklist.
#[derive(Debug)]
pub enum FilterListAction {
    Add { process: String, regex: bool },
    Remove { process: String },
    List,
    Clear,
}

} // verus!
