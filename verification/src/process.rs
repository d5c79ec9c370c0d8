//! A tracked process: its title, its usage ledger, its tags and the date on
//! which it was last seen.

use crate::clock::today_date;
use crate::ledger::{lemma_with_entry, total_of, usage_of, well_formed, with_entry, Entries, Ledger};
use crate::text::{
    clone_strings, contains_str, first_index_of, lemma_first_index_found, str_eq, views,
};
use vstd::prelude::*;
use vstd::string::*;

verus! {

/// A tracked process. The title is its identity within one machine's list.
#[derive(Debug)]
pub struct Process {
    pub title: String,
    pub daily_usage: Ledger,
    pub tags: Vec<String>,
    pub last_seen: String,
}

/// The mathematical model of a process.
pub struct ProcessView {
    pub title: Seq<char>,
    pub daily_usage: Entries,
    pub tags: Seq<Seq<char>>,
    pub last_seen: Seq<char>,
}

impl View for Process {
    type V = ProcessView;

    open spec fn view(&self) -> ProcessView {
        ProcessView {
            title: self.title@,
            daily_usage: self.daily_usage@,
            tags: views(self.tags@),
            last_seen: self.last_seen@,
        }
    }
}

/// The models of a list of processes, in order.
pub open spec fn process_views(list: Seq<Process>) -> Seq<ProcessView> {
    Seq::new(list.len(), |i: int| list[i]@)
}

/// The sum of `amounts`.
pub open spec fn sum_of(amounts: Seq<u64>) -> nat
    decreases amounts.len(),
{
    if amounts.len() == 0 {
        0
    } else {
        sum_of(amounts.drop_last()) + amounts.last() as nat
    }
}

impl ProcessView {
    /// A process that was first seen on `date` and has no usage and no tags.
    pub open spec fn fresh(title: Seq<char>, date: Seq<char>) -> ProcessView {
        ProcessView {
            title,
            daily_usage: Seq::<(Seq<char>, u64)>::empty(),
            tags: Seq::<Seq<char>>::empty(),
            last_seen: date,
        }
    }

    /// The seconds recorded on `date`; zero where nothing was recorded.
    pub open spec fn usage_on(self, date: Seq<char>) -> nat {
        usage_of(self.daily_usage, date)
    }

    /// The seconds recorded on all dates together.
    pub open spec fn total_usage(self) -> nat {
        total_of(self.daily_usage)
    }

    /// The process after `seconds` more were recorded on `date`: the usage of
    /// that date grows by `seconds` and the process was last seen on `date`.
    pub open spec fn add_time(self, date: Seq<char>, seconds: u64) -> ProcessView {
        ProcessView {
            daily_usage: with_entry(
                self.daily_usage,
                date,
                (usage_of(self.daily_usage, date) + seconds) as u64,
            ),
            last_seen: date,
            ..self
        }
    }

    /// The process after each of `amounts` was recorded on `date`, in order.
    pub open spec fn add_times(self, date: Seq<char>, amounts: Seq<u64>) -> ProcessView
        decreases amounts.len(),
    {
        if amounts.len() == 0 {
            self
        } else {
            self.add_times(date, amounts.drop_last()).add_time(date, amounts.last())
        }
    }

    /// Whether the process carries `tag`.
    pub open spec fn has_tag(self, tag: Seq<char>) -> bool {
        self.tags.contains(tag)
    }
}

/// Recording time on one date adds to the usage of that date and to the
/// total, and leaves every other date as it was.
pub proof fn lemma_add_time(p: ProcessView, date: Seq<char>, seconds: u64)
    requires
        well_formed(p.daily_usage),
        p.total_usage() + seconds <= u64::MAX,
    ensures
        p.add_time(date, seconds).usage_on(date) == p.usage_on(date) + seconds,
        p.add_time(date, seconds).total_usage() == p.total_usage() + seconds,
        forall|other: Seq<char>|
            other != date ==> p.add_time(date, seconds).usage_on(other) == p.usage_on(other),
        well_formed(p.add_time(date, seconds).daily_usage),
        p.add_time(date, seconds).title == p.title,
        p.add_time(date, seconds).tags == p.tags,
{
    lemma_with_entry(p.daily_usage, date, 0);
    lemma_with_entry(p.daily_usage, date, (usage_of(p.daily_usage, date) + seconds) as u64);
}

/// After any sequence of recordings on one date, the usage of that date is
/// what it was plus the sum of the amounts, the total is what it was plus that
/// sum, and no other date has changed.
pub proof fn lemma_add_times(p: ProcessView, date: Seq<char>, amounts: Seq<u64>)
    requires
        well_formed(p.daily_usage),
        p.total_usage() + sum_of(amounts) <= u64::MAX,
    ensures
        p.add_times(date, amounts).usage_on(date) == p.usage_on(date) + sum_of(amounts),
        p.add_times(date, amounts).total_usage() == p.total_usage() + sum_of(amounts),
        forall|other: Seq<char>|
            other != date ==> p.add_times(date, amounts).usage_on(other) == p.usage_on(other),
        well_formed(p.add_times(date, amounts).daily_usage),
    decreases amounts.len(),
{
    if amounts.len() > 0 {
        lemma_add_times(p, date, amounts.drop_last());
        lemma_add_time(p.add_times(date, amounts.drop_last()), date, amounts.last());
    }
}

impl Process {
    /// A process first seen today, without usage and without tags.
    pub fn new(title: String) -> (r: Process)
        ensures
            exists|date: Seq<char>| r@ == #[trigger] ProcessView::fresh(title@, date),
            r@.title == title@,
            r@.daily_usage.len() == 0,
            r@.tags.len() == 0,
    {
        let today = today_date();
        Process::new_on(title, today)
    }

    /// A process first seen on `date`, without usage and without tags.
    pub fn new_on(title: String, date: String) -> (r: Process)
        ensures
            r@ == ProcessView::fresh(title@, date@),
    {
        let r = Process { title, daily_usage: Ledger::new(), tags: Vec::new(), last_seen: date };
        assert(r@.tags =~= Seq::<Seq<char>>::empty());
        r
    }

    /// The seconds recorded today. Which date today is comes from the clock,
    /// so the result is the usage of some date.
    pub fn get_today_usage(&self) -> (r: u64)
        ensures
            exists|date: Seq<char>| r == self@.usage_on(date),
    {
        let today = today_date();
        self.usage_on(today.as_str())
    }

    /// The seconds recorded on `date`; zero where nothing was recorded.
    pub fn usage_on(&self, date: &str) -> (r: u64)
        ensures
            r == self@.usage_on(date@),
    {
        self.daily_usage.usage_on(date)
    }

    /// The seconds recorded on all dates together.
    pub fn get_total_usage(&self) -> (r: u64)
        ensures
            r == self@.total_usage(),
    {
        self.daily_usage.total()
    }

    /// Whether `seconds` more can be recorded with the total still within
    /// 64 bits.
    pub fn can_add_time(&self, seconds: u64) -> (r: bool)
        ensures
            r == (self@.total_usage() + seconds <= u64::MAX),
    {
        self.daily_usage.can_add(seconds)
    }

    /// Records `seconds` more for today and marks the process as seen today.
    /// Which date today is comes from the clock. The total must stay within
    /// 64 bits, which `can_add_time` tells.
    pub fn add_time(&mut self, seconds: u64)
        requires
            old(self)@.total_usage() + seconds <= u64::MAX,
        ensures
            exists|date: Seq<char>| final(self)@ == old(self)@.add_time(date, seconds),
    {
        let today = today_date();
        self.add_time_on(today.as_str(), seconds);
    }

    /// Records `seconds` more for `date` and marks the process as seen then.
    /// The total must stay within 64 bits, which `can_add_time` tells.
    pub fn add_time_on(&mut self, date: &str, seconds: u64)
        requires
            old(self)@.total_usage() + seconds <= u64::MAX,
        ensures
            final(self)@ == old(self)@.add_time(date@, seconds),
    {
        self.daily_usage.add(date, seconds);
        self.last_seen = String::from_str(date);
    }

    /// Whether the process carries `tag`.
    pub fn has_tag(&self, tag: &str) -> (r: bool)
        ensures
            r == self@.has_tag(tag@),
    {
        contains_str(&self.tags, tag)
    }
}

impl Clone for Process {
    fn clone(&self) -> (r: Process)
        ensures
            r@ == self@,
    {
        Process {
            title: self.title.clone(),
            daily_usage: self.daily_usage.clone(),
            tags: clone_strings(&self.tags),
            last_seen: self.last_seen.clone(),
        }
    }
}

/// A copy of `list`, process by process.
pub fn clone_processes(list: &Vec<Process>) -> (r: Vec<Process>)
    ensures
        process_views(r@) == process_views(list@),
{
    let mut copy: Vec<Process> = Vec::new();
    let mut i: usize = 0;
    while i < list.len()
        invariant
            i <= list.len(),
            copy@.len() == i,
            forall|k: int| 0 <= k < i ==> copy@[k]@ == list@[k]@,
        decreases list.len() - i,
    {
        copy.push(list[i].clone());
        i += 1;
    }
    copy
}

/// The titles of `processes`, in order.
pub open spec fn titles_of(processes: Seq<ProcessView>) -> Seq<Seq<char>> {
    Seq::new(processes.len(), |i: int| processes[i].title)
}

/// The position of the first process of `processes` with the title `title`.
pub open spec fn index_of_title(processes: Seq<ProcessView>, title: Seq<char>) -> Option<int> {
    first_index_of(titles_of(processes), title)
}

/// No title occurs twice in `processes`.
pub open spec fn distinct_titles(processes: Seq<ProcessView>) -> bool {
    forall|i: int, j: int|
        0 <= i < j < processes.len() ==> processes[i].title != processes[j].title
}

/// The position of the first process of `list` with the title `title`.
pub fn find_process(list: &Vec<Process>, title: &str) -> (r: Option<usize>)
    ensures
        match r {
            Some(i) => index_of_title(process_views(list@), title@) == Some(i as int) && i
                < list.len() && list@[i as int]@.title == title@,
            None => index_of_title(process_views(list@), title@) is None,
        },
{
    let ghost titles = titles_of(process_views(list@));
    let mut i: usize = 0;
    while i < list.len()
        invariant
            i <= list.len(),
            titles == titles_of(process_views(list@)),
            first_index_of(titles.take(i as int), title@) is None,
        decreases list.len() - i,
    {
        proof {
            let next = titles.take(i as int + 1);
            assert(next.drop_last() =~= titles.take(i as int));
        }
        if str_eq(list[i].title.as_str(), title) {
            proof {
                lemma_first_index_found(titles, title@, i as int + 1);
            }
            return Some(i);
        }
        i += 1;
    }
    proof {
        assert(titles.take(list.len() as int) =~= titles);
    }
    None
}

} // verus!
