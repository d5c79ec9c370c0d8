//! What the configuration listing shows.

use crate::error::CommandError;
use crate::process::{process_views, Process, ProcessView};
use crate::process_list::ListMode;
use crate::store::LachesStore;
use crate::store_management::{grand_total, total_tracked};
use vstd::prelude::*;
use vstd::string::*;

verus! {

/// One machine of the listing: how many processes it tracks and for how
/// long, in whole hours and the minutes beyond them.
#[derive(Debug)]
pub struct MachineSummary {
    pub machine_id: String,
    pub processes: usize,
    pub hours: u128,
    pub minutes: u128,
}

/// The configuration listing.
#[derive(Debug)]
pub struct ConfigSummary {
    pub autostart: bool,
    pub update_interval: u64,
    pub filter_mode: &'static str,
    pub machines: Vec<MachineSummary>,
}

/// The name under which the listing shows a filter mode.
pub open spec fn filter_name(mode: ListMode) -> Seq<char> {
    match mode {
        ListMode::Whitelist => "whitelist"@,
        ListMode::Blacklist => "blacklist"@,
        ListMode::Default => "none"@,
    }
}

/// Whether `summary` sums up the machine `machine`.
pub open spec fn sums_up(summary: MachineSummary, machine: (Seq<char>, Seq<ProcessView>)) -> bool {
    &&& summary.machine_id@ == machine.0
    &&& summary.processes == machine.1.len()
    &&& summary.hours == grand_total(machine.1) / 3600
    &&& summary.minutes == (grand_total(machine.1) % 3600) / 60
}

/// The summary of one machine.
pub fn summarise_machine(machine_id: &str, processes: &Vec<Process>) -> (r: MachineSummary)
    ensures
        sums_up(r, (machine_id@, process_views(processes@))),
{
    let total = total_tracked(processes);
    MachineSummary {
        machine_id: String::from_str(machine_id),
        processes: processes.len(),
        hours: total / 3600,
        minutes: (total % 3600) / 60,
    }
}

/// The configuration listing of a store: its settings and a summary of every
/// machine that shares it, in store order.
pub fn show_config(laches_store: &LachesStore) -> (r: ConfigSummary)
    ensures
        r.autostart == laches_store@.autostart,
        r.update_interval == laches_store@.update_interval,
        r.filter_mode@ == filter_name(laches_store@.process_list_options.mode),
        r.machines@.len() == laches_store@.machine_data.len(),
        forall|i: int|
            0 <= i < r.machines@.len() ==> sums_up(
                #[trigger] r.machines@[i],
                laches_store@.machine_data[i],
            ),
{
    let filter_mode = match laches_store.process_list_options.mode {
        ListMode::Whitelist => "whitelist",
        ListMode::Blacklist => "blacklist",
        ListMode::Default => "none",
    };
    let mut machines: Vec<MachineSummary> = Vec::new();
    let mut i: usize = 0;
    while i < laches_store.machine_data.len()
        invariant
            i <= laches_store.machine_data@.len(),
            machines@.len() == i,
            forall|k: int|
                0 <= k < i ==> sums_up(#[trigger] machines@[k], laches_store.machine_data@[k]),
        decreases laches_store.machine_data@.len() - i,
    {
        let summary = summarise_machine(
            laches_store.machine_data.machine_id_at(i),
            laches_store.machine_data.processes_at(i),
        );
        machines.push(summary);
        i += 1;
    }
    ConfigSummary {
        autostart: laches_store.autostart,
        update_interval: laches_store.update_interval,
        filter_mode,
        machines,
    }
}

/// Moves the store to another directory. Stores cannot be moved yet, so
/// this succeeds and does nothing.
pub fn set_store_path(store_path: &str, target_path: &str) -> (r: Result<(), CommandError>)
    ensures
        r is Ok,
{
    Ok(())
}

} // verus!
