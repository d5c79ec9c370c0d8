//! The poller: what one tick does to the store.
//!
//! A tick takes the titles of the processes that are running now. Each title
//! that the machine's list knows gets the tick's seconds added for today; each
//! other title gets a new entry with those seconds.

use crate::clock::today_date;
use crate::ledger::{total_of, well_formed};
use crate::process::{
    find_process, index_of_title, lemma_add_time, process_views, titles_of, Process, ProcessView,
};
use crate::store::{machine_list, LachesStore, StoreView};
use crate::text::{is_blank, lemma_first_index_of, no_duplicates, position_of, trim, views};
use vstd::prelude::*;
use vstd::string::*;

verus! {

/// The names of the processes that run on this machine now, as
/// `sysinfo::System::new_all` lists them and `Process::name` names them. They
/// depend on the machine and the moment, so nothing is claimed of them.
#[verifier::external_body]
fn running_process_names() -> (names: Vec<String>) {
    let system = sysinfo::System::new_all();
    system.processes().values().map(|process| process.name().to_string()).collect()
}

/// The titles to track among `names`: the first occurrence of every name
/// that is not blank, in order.
pub open spec fn distinct_live(names: Seq<Seq<char>>) -> Seq<Seq<char>>
    decreases names.len(),
{
    if names.len() == 0 {
        names
    } else {
        let before = distinct_live(names.drop_last());
        if trim(names.last()).len() == 0 || before.contains(names.last()) {
            before
        } else {
            before.push(names.last())
        }
    }
}

/// New processes with the titles `titles`, first seen on `today`.
pub open spec fn fresh_processes(titles: Seq<Seq<char>>, today: Seq<char>) -> Seq<ProcessView> {
    Seq::new(titles.len(), |i: int| ProcessView::fresh(titles[i], today))
}

/// The machine's list after the title `name` was seen running for `seconds`
/// on `today`: the process of that title gets the seconds added, or a new
/// process with those seconds joins the end of the list. A process whose
/// total would leave 64 bits is left as it is.
pub open spec fn observe(
    list: Seq<ProcessView>,
    name: Seq<char>,
    seconds: u64,
    today: Seq<char>,
) -> Seq<ProcessView> {
    match index_of_title(list, name) {
        Some(i) => if total_of(list[i].daily_usage) + seconds <= u64::MAX {
            list.update(i, list[i].add_time(today, seconds))
        } else {
            list
        },
        None => list.push(ProcessView::fresh(name, today).add_time(today, seconds)),
    }
}

/// The machine's list after each of `names` was seen, in order.
pub open spec fn observe_all(
    list: Seq<ProcessView>,
    names: Seq<Seq<char>>,
    seconds: u64,
    today: Seq<char>,
) -> Seq<ProcessView>
    decreases names.len(),
{
    if names.len() == 0 {
        list
    } else {
        observe(observe_all(list, names.drop_last(), seconds, today), names.last(), seconds, today)
    }
}

/// Whether the title `name` is known to `list` with a total that `seconds`
/// more would take out of 64 bits.
pub open spec fn is_full(list: Seq<ProcessView>, name: Seq<char>, seconds: u64) -> bool {
    index_of_title(list, name) matches Some(i) && total_of(list[i].daily_usage) + seconds
        > u64::MAX
}

/// What a tick reports after each of `names` was seen, in order: how many
/// processes got time added, how many are new, and how many were full.
pub open spec fn tick_counts(
    list: Seq<ProcessView>,
    names: Seq<Seq<char>>,
    seconds: u64,
    today: Seq<char>,
) -> (nat, nat, nat)
    decreases names.len(),
{
    if names.len() == 0 {
        (0, 0, 0)
    } else {
        let so_far = tick_counts(list, names.drop_last(), seconds, today);
        let before = observe_all(list, names.drop_last(), seconds, today);
        if index_of_title(before, names.last()) is None {
            (so_far.0, so_far.1 + 1, so_far.2)
        } else if is_full(before, names.last(), seconds) {
            (so_far.0, so_far.1, so_far.2 + 1)
        } else {
            (so_far.0 + 1, so_far.1, so_far.2)
        }
    }
}

/// The titles to track are pairwise different and none of them is blank.
pub proof fn lemma_distinct_live(names: Seq<Seq<char>>)
    ensures
        no_duplicates(distinct_live(names)),
        forall|k: int|
            0 <= k < distinct_live(names).len() ==> trim(#[trigger] distinct_live(names)[k]).len()
                > 0 && names.contains(distinct_live(names)[k]),
        forall|k: int|
            0 <= k < names.len() && trim(names[k]).len() > 0 ==> distinct_live(names).contains(
                #[trigger] names[k],
            ),
    decreases names.len(),
{
    if names.len() > 0 {
        let shorter = names.drop_last();
        lemma_distinct_live(shorter);
        let before = distinct_live(shorter);
        let after = distinct_live(names);
        assert forall|k: int| 0 <= k < after.len() implies trim(#[trigger] after[k]).len() > 0
            && names.contains(after[k]) by {
            if k < before.len() {
                assert(after[k] == before[k]);
                let j = choose|j: int| 0 <= j < shorter.len() && shorter[j] == before[k];
                assert(names[j] == after[k]);
            } else {
                assert(names[names.len() - 1] == after[k]);
            }
        }
        assert forall|k: int| 0 <= k < names.len() && trim(names[k]).len() > 0 implies after.contains(
            #[trigger] names[k],
        ) by {
            if k < shorter.len() {
                assert(shorter[k] == names[k]);
                let j = choose|j: int| 0 <= j < before.len() && before[j] == names[k];
                assert(after[j] == names[k]);
            } else if before.contains(names.last()) {
                let j = choose|j: int| 0 <= j < before.len() && before[j] == names.last();
                assert(after[j] == names[k]);
            } else {
                assert(after[before.len() as int] == names[k]);
            }
        }
    }
}

/// A tick keeps the titles of a list pairwise different: a title that is
/// known is not added again.
pub proof fn lemma_observe_keeps_titles_distinct(
    list: Seq<ProcessView>,
    name: Seq<char>,
    seconds: u64,
    today: Seq<char>,
)
    requires
        no_duplicates(titles_of(list)),
    ensures
        no_duplicates(titles_of(observe(list, name, seconds, today))),
        index_of_title(observe(list, name, seconds, today), name) is Some,
{
    let after = observe(list, name, seconds, today);
    lemma_first_index_of(titles_of(list), name);
    lemma_first_index_of(titles_of(after), name);
    match index_of_title(list, name) {
        Some(i) => {
            assert(titles_of(after) =~= titles_of(list));
        },
        None => {
            assert(titles_of(after) =~= titles_of(list).push(name));
        },
    }
}

/// A whole tick keeps the titles of a list pairwise different.
pub proof fn lemma_tick_keeps_titles_distinct(
    list: Seq<ProcessView>,
    names: Seq<Seq<char>>,
    seconds: u64,
    today: Seq<char>,
)
    requires
        no_duplicates(titles_of(list)),
    ensures
        no_duplicates(titles_of(observe_all(list, names, seconds, today))),
    decreases names.len(),
{
    if names.len() > 0 {
        lemma_tick_keeps_titles_distinct(list, names.drop_last(), seconds, today);
        lemma_observe_keeps_titles_distinct(
            observe_all(list, names.drop_last(), seconds, today),
            names.last(),
            seconds,
            today,
        );
    }
}

/// Seeing a title never lowers what a ledger holds: every process keeps its
/// place, its title and its tags, no date of any process loses time, and the
/// ledgers stay well formed.
pub proof fn lemma_observe_never_lowers_usage(
    list: Seq<ProcessView>,
    name: Seq<char>,
    seconds: u64,
    today: Seq<char>,
)
    requires
        forall|i: int| 0 <= i < list.len() ==> well_formed(#[trigger] list[i].daily_usage),
    ensures
        observe(list, name, seconds, today).len() >= list.len(),
        forall|i: int|
            0 <= i < observe(list, name, seconds, today).len() ==> well_formed(
                #[trigger] observe(list, name, seconds, today)[i].daily_usage,
            ),
        forall|i: int|
            0 <= i < list.len() ==> (#[trigger] observe(list, name, seconds, today)[i]).title
                == list[i].title && observe(list, name, seconds, today)[i].tags == list[i].tags,
        forall|i: int, date: Seq<char>|
            0 <= i < list.len() ==> #[trigger] observe(list, name, seconds, today)[i].usage_on(date)
                >= list[i].usage_on(date),
{
    lemma_first_index_of(titles_of(list), name);
    match index_of_title(list, name) {
        Some(k) => {
            if total_of(list[k].daily_usage) + seconds <= u64::MAX {
                lemma_add_time(list[k], today, seconds);
            }
        },
        None => {
            lemma_add_time(ProcessView::fresh(name, today), today, seconds);
        },
    }
}

/// What a tick did.
#[derive(Debug, Clone, Copy, PartialEq, Eq, Structural)]
pub struct TickReport {
    /// Processes that got time added.
    pub updated: usize,
    /// Processes seen for the first time.
    pub created: usize,
    /// Processes left as they were because their total would leave 64 bits.
    pub full: usize,
}

/// The titles to track among `names`: the first occurrence of every name
/// that is not blank.
pub fn distinct_names(names: &Vec<String>) -> (r: Vec<String>)
    ensures
        views(r@) == distinct_live(views(names@)),
{
    let ghost all = views(names@);
    let mut kept: Vec<String> = Vec::new();
    let mut i: usize = 0;
    while i < names.len()
        invariant
            i <= names.len(),
            all == views(names@),
            views(kept@) == distinct_live(all.take(i as int)),
        decreases names.len() - i,
    {
        proof {
            assert(all.take(i as int + 1).drop_last() =~= all.take(i as int));
            lemma_first_index_of(views(kept@), names@[i as int]@);
        }
        let name = names[i].as_str();
        if !is_blank(name) && position_of(&kept, name).is_none() {
            kept.push(names[i].clone());
        }
        i += 1;
    }
    proof {
        assert(all.take(i as int) =~= all);
    }
    kept
}

/// New processes for the titles to track among `names`, first seen on
/// `today`.
pub fn active_processes_from(names: &Vec<String>, today: &str) -> (r: Vec<Process>)
    ensures
        process_views(r@) == fresh_processes(distinct_live(views(names@)), today@),
{
    let titles = distinct_names(names);
    let mut processes: Vec<Process> = Vec::new();
    let mut i: usize = 0;
    while i < titles.len()
        invariant
            i <= titles.len(),
            processes@.len() == i,
            forall|k: int|
                0 <= k < i ==> (#[trigger] processes@[k])@ == ProcessView::fresh(
                    titles@[k]@,
                    today@,
                ),
        decreases titles.len() - i,
    {
        processes.push(Process::new_on(titles[i].clone(), String::from_str(today)));
        i += 1;
    }
    processes
}

/// The processes that run on this machine now, as new processes: one for
/// every title, none for a blank one, each without usage and without tags.
/// Which processes run, and which date today is, comes from the machine.
pub fn get_active_processes() -> (r: Vec<Process>)
    ensures
        exists|names: Seq<Seq<char>>, today: Seq<char>|
            process_views(r@) == #[trigger] fresh_processes(distinct_live(names), today),
        no_duplicates(titles_of(process_views(r@))),
        forall|k: int|
            0 <= k < r@.len() ==> trim((#[trigger] r@[k])@.title).len() > 0
                && r@[k]@.daily_usage.len() == 0 && r@[k]@.tags.len() == 0,
{
    let names = running_process_names();
    let today = today_date();
    let processes = active_processes_from(&names, today.as_str());
    proof {
        let titles = distinct_live(views(names@));
        lemma_distinct_live(views(names@));
        assert(titles_of(process_views(processes@)) =~= titles);
        assert forall|k: int| 0 <= k < processes@.len() implies trim(
            (#[trigger] processes@[k])@.title,
        ).len() > 0 && processes@[k]@.daily_usage.len() == 0 && processes@[k]@.tags.len()
            == 0 by {
            assert(process_views(processes@)[k] == ProcessView::fresh(titles[k], today@));
        }
    }
    processes
}

/// Records that the title `name` was seen running for `seconds` on `today`.
pub fn observe_process(list: &mut Vec<Process>, name: &str, seconds: u64, today: &str) -> (r:
    TickReport)
    ensures
        process_views(final(list)@) == observe(process_views(old(list)@), name@, seconds, today@),
        r.updated + r.created + r.full == 1,
        r.created == 1 <==> index_of_title(process_views(old(list)@), name@) is None,
        r.full == 1 <==> is_full(process_views(old(list)@), name@, seconds),
{
    match find_process(list, name) {
        Some(i) => {
            if list[i].can_add_time(seconds) {
                list[i].add_time_on(today, seconds);
                TickReport { updated: 1, created: 0, full: 0 }
            } else {
                TickReport { updated: 0, created: 0, full: 1 }
            }
        },
        None => {
            let mut process = Process::new_on(String::from_str(name), String::from_str(today));
            process.add_time_on(today, seconds);
            list.push(process);
            TickReport { updated: 0, created: 1, full: 0 }
        },
    }
}

/// Whether one tick on `today` makes the store `after` of the store
/// `before` and reports `r`: every one of `names` is recorded as seen for
/// `seconds` in the list of machine `machine_id`, and the report counts the
/// titles that gained time, that are new, and whose ledger was full.
pub open spec fn tick_result(
    before: StoreView,
    after: StoreView,
    r: TickReport,
    machine_id: Seq<char>,
    names: Seq<Seq<char>>,
    seconds: u64,
    today: Seq<char>,
) -> bool {
    let list = machine_list(before.machine_data, machine_id);
    &&& after == before.with_machine(machine_id, observe_all(list, names, seconds, today))
    &&& (r.updated as nat, r.created as nat, r.full as nat) == tick_counts(
        list,
        names,
        seconds,
        today,
    )
}

/// One tick of the poller on `today`: every title of `live_names` is
/// recorded as seen for `seconds` in the list of machine `machine_id`. A
/// machine that the store does not know gets a list first.
pub fn tick_on(
    store: &mut LachesStore,
    machine_id: &str,
    live_names: &Vec<String>,
    seconds: u64,
    today: &str,
) -> (r: TickReport)
    ensures
        tick_result(
            old(store)@,
            final(store)@,
            r,
            machine_id@,
            views(live_names@),
            seconds,
            today@,
        ),
        r.updated + r.created + r.full == live_names@.len(),
{
    let list = store.get_machine_processes_mut(machine_id);
    let ghost start = process_views(list@);
    let ghost names = views(live_names@);
    let mut report = TickReport { updated: 0, created: 0, full: 0 };
    let mut i: usize = 0;
    while i < live_names.len()
        invariant
            i <= live_names.len(),
            names == views(live_names@),
            process_views(list@) == observe_all(start, names.take(i as int), seconds, today@),
            (report.updated as nat, report.created as nat, report.full as nat) == tick_counts(
                start,
                names.take(i as int),
                seconds,
                today@,
            ),
            report.updated + report.created + report.full == i,
        decreases live_names.len() - i,
    {
        proof {
            assert(names.take(i as int + 1).drop_last() =~= names.take(i as int));
        }
        let one = observe_process(list, live_names[i].as_str(), seconds, today);
        report = TickReport {
            updated: report.updated + one.updated,
            created: report.created + one.created,
            full: report.full + one.full,
        };
        i += 1;
    }
    proof {
        assert(names.take(i as int) =~= names);
    }
    report
}

/// One tick of the poller as of today, on the titles that the caller found
/// running: the store and each count of the report are those of
/// `tick_result` for the date that the clock gives.
pub fn tick(store: &mut LachesStore, machine_id: &str, live_names: &Vec<String>, seconds: u64) -> (r:
    TickReport)
    ensures
        exists|today: Seq<char>| #[trigger]
            tick_result(
                old(store)@,
                final(store)@,
                r,
                machine_id@,
                views(live_names@),
                seconds,
                today,
            ),
        r.updated + r.created + r.full == live_names@.len(),
{
    let today = today_date();
    tick_on(store, machine_id, live_names, seconds, today.as_str())
}

} // verus!
