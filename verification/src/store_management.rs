//! Deleting recorded time, by age or wholesale, and exporting a snapshot.
//!
//! A retention window is written as a positive number of days followed by
//! `d`. It turns into a cutoff date, the date that many days before today;
//! entries of earlier dates are the old ones.

use crate::clock::{date_minus_days, days_before, today_date};
use crate::error::CommandError;
use crate::ledger::{kept_from, lemma_kept_from, total_of};
use crate::process::{process_views, Process, ProcessView};
use crate::rank::{insert_ranked, lemma_insert_ranked_at, ranked};
use crate::store::{machine_list, LachesStore, StoreView};
use crate::text::{chars_of, clone_strings, text_view};
use vstd::prelude::*;

verus! {

/// Whether `c` is a decimal digit.
pub open spec fn is_digit(c: char) -> bool {
    48 <= c as u32 <= 57
}

/// The value of the decimal digit `c`.
pub open spec fn digit_value(c: char) -> nat {
    (c as u32 - 48) as nat
}

/// The number that the decimal digits `digits` write.
pub open spec fn digits_value(digits: Seq<char>) -> nat
    decreases digits.len(),
{
    if digits.len() == 0 {
        0
    } else {
        digits_value(digits.drop_last()) * 10 + digit_value(digits.last())
    }
}

/// Whether `text` is made of decimal digits only.
pub open spec fn all_digits(text: Seq<char>) -> bool {
    forall|i: int| 0 <= i < text.len() ==> is_digit(#[trigger] text[i])
}

/// The integer that `text` writes: an optional sign and at least one decimal
/// digit. `None` for any other text.
pub open spec fn parse_int(text: Seq<char>) -> Option<int> {
    let signed = text.len() > 0 && (text[0] == '+' || text[0] == '-');
    let digits = if signed {
        text.drop_first()
    } else {
        text
    };
    if digits.len() == 0 || !all_digits(digits) {
        None
    } else if signed && text[0] == '-' {
        Some(-(digits_value(digits) as int))
    } else {
        Some(digits_value(digits) as int)
    }
}

/// The number of days that a retention window names, or why it names none:
/// it must end in `d`, what stands before must write an integer that fits in
/// 64 bits, and that integer must be positive.
pub open spec fn duration_days(text: Seq<char>) -> Result<i64, CommandError> {
    if text.len() == 0 || text.last() != 'd' {
        Err(CommandError::DurationFormat)
    } else {
        match parse_int(text.drop_last()) {
            None => Err(CommandError::DurationValue),
            Some(value) => if value < i64::MIN || value > i64::MAX {
                Err(CommandError::DurationValue)
            } else if value <= 0 {
                Err(CommandError::DurationNotPositive)
            } else {
                Ok(value as i64)
            },
        }
    }
}

/// Reads a retention window such as `7d` and gives its number of days.
pub fn parse_duration(duration_str: &str) -> (r: Result<i64, CommandError>)
    ensures
        r == duration_days(duration_str@),
{
    let chars = chars_of(duration_str);
    let n = chars.len();
    if n == 0 || chars[n - 1] != 'd' {
        return Err(CommandError::DurationFormat);
    }
    let end = n - 1;
    let signed = end > 0 && (chars[0] == '+' || chars[0] == '-');
    let negative = signed && chars[0] == '-';
    let start: usize = if signed {
        1
    } else {
        0
    };
    let ghost text = chars@.drop_last();
    let ghost digits = chars@.subrange(start as int, end as int);
    proof {
        if signed {
            assert(text.drop_first() =~= digits);
        } else {
            assert(text =~= digits);
        }
    }
    if start == end {
        return Err(CommandError::DurationValue);
    }
    let mut value: u64 = 0;
    let mut overflow = false;
    let mut i: usize = start;
    while i < end
        invariant
            start <= i <= end,
            end < chars.len(),
            digits == chars@.subrange(start as int, end as int),
            !all_digits(digits) ==> duration_days(duration_str@) == Err::<i64, CommandError>(
                CommandError::DurationValue,
            ),
            forall|k: int| 0 <= k < i - start ==> is_digit(#[trigger] digits[k]),
            !overflow ==> value == digits_value(digits.take(i - start)),
            overflow ==> digits_value(digits.take(i - start)) > u64::MAX,
        decreases end - i,
    {
        let c = chars[i];
        let code: u32 = c as u32;
        proof {
            assert(digits[i - start] == c);
            assert(digits.take(i - start + 1).drop_last() =~= digits.take(i - start));
        }
        if code < 48 || code > 57 {
            return Err(CommandError::DurationValue);
        }
        let digit: u64 = (code - 48) as u64;
        if !overflow {
            match value.checked_mul(10) {
                Some(tenfold) => match tenfold.checked_add(digit) {
                    Some(next) => {
                        value = next;
                    },
                    None => {
                        overflow = true;
                    },
                },
                None => {
                    overflow = true;
                },
            }
        }
        i += 1;
    }
    proof {
        assert(digits.take(end - start) =~= digits);
    }
    if overflow {
        Err(CommandError::DurationValue)
    } else if negative {
        if value > 0x8000_0000_0000_0000 {
            Err(CommandError::DurationValue)
        } else {
            Err(CommandError::DurationNotPositive)
        }
    } else if value > 0x7fff_ffff_ffff_ffff {
        Err(CommandError::DurationValue)
    } else if value == 0 {
        Err(CommandError::DurationNotPositive)
    } else {
        Ok(value as i64)
    }
}

/// The days and the cutoff date of a retention window, given today's date,
/// or why there is none.
pub open spec fn cutoff_of(duration: Seq<char>, today: Seq<char>) -> Result<
    (i64, Seq<char>),
    CommandError,
> {
    match duration_days(duration) {
        Err(e) => Err(e),
        Ok(days) => match date_minus_days(today, days) {
            Some(cutoff) => Ok((days, cutoff)),
            None => Err(CommandError::DurationOutOfRange),
        },
    }
}

/// The cutoff for a number of days, given what the calendar says of the date
/// that many days before today: the date, or an error where the calendar has
/// none.
pub fn cutoff_from(days: i64, earlier: Option<String>) -> (r: Result<(i64, String), CommandError>)
    ensures
        match earlier {
            Some(date) => r matches Ok((d, cutoff)) && d == days && cutoff@ == date@,
            None => r == Err::<(i64, String), CommandError>(CommandError::DurationOutOfRange),
        },
{
    match earlier {
        Some(date) => Ok((days, date)),
        None => Err(CommandError::DurationOutOfRange),
    }
}

/// The days and the cutoff date of the retention window `duration_str`, with
/// `today` as today's date.
pub fn cutoff_date(duration_str: &str, today: &str) -> (r: Result<(i64, String), CommandError>)
    ensures
        match cutoff_of(duration_str@, today@) {
            Ok((days, cutoff)) => r matches Ok((d, c)) && d == days && c@ == cutoff,
            Err(e) => r == Err::<(i64, String), CommandError>(e),
        },
{
    match parse_duration(duration_str) {
        Err(e) => Err(e),
        Ok(days) => cutoff_from(days, days_before(today, days)),
    }
}

/// `list` with the ledger of every process emptied; titles and tags stay.
pub open spec fn cleared(list: Seq<ProcessView>) -> Seq<ProcessView> {
    Seq::new(
        list.len(),
        |i: int| ProcessView { daily_usage: Seq::<(Seq<char>, u64)>::empty(), ..list[i] },
    )
}

/// `list` with the entries before `cutoff` dropped from every ledger.
pub open spec fn pruned(list: Seq<ProcessView>, cutoff: Seq<char>) -> Seq<ProcessView> {
    Seq::new(
        list.len(),
        |i: int| ProcessView { daily_usage: kept_from(list[i].daily_usage, cutoff), ..list[i] },
    )
}

/// The number of entries before `cutoff` in the ledgers of `list`.
pub open spec fn old_entries(list: Seq<ProcessView>, cutoff: Seq<char>) -> nat
    decreases list.len(),
{
    if list.len() == 0 {
        0
    } else {
        old_entries(list.drop_last(), cutoff) + (list.last().daily_usage.len() - kept_from(
            list.last().daily_usage,
            cutoff,
        ).len()) as nat
    }
}

/// Empties the ledger of every process of `list`.
pub fn clear_usage(list: &mut Vec<Process>)
    ensures
        process_views(final(list)@) == cleared(process_views(old(list)@)),
{
    let ghost before = process_views(list@);
    let mut i: usize = 0;
    while i < list.len()
        invariant
            i <= list.len(),
            list@.len() == before.len(),
            forall|k: int| 0 <= k < i ==> (#[trigger] list@[k])@ == cleared(before)[k],
            forall|k: int| i <= k < list@.len() ==> (#[trigger] list@[k])@ == before[k],
        decreases list.len() - i,
    {
        list[i].daily_usage.clear();
        i += 1;
    }
}

/// Drops the entries before `cutoff` from the ledger of every process of
/// `list` and returns how many entries were dropped.
pub fn prune_usage(list: &mut Vec<Process>, cutoff: &str) -> (dropped: u128)
    ensures
        process_views(final(list)@) == pruned(process_views(old(list)@), cutoff@),
        dropped == old_entries(process_views(old(list)@), cutoff@),
{
    let ghost before = process_views(list@);
    let mut dropped: u128 = 0;
    let mut i: usize = 0;
    while i < list.len()
        invariant
            i <= list.len(),
            list@.len() == before.len(),
            forall|k: int| 0 <= k < i ==> (#[trigger] list@[k])@ == pruned(before, cutoff@)[k],
            forall|k: int| i <= k < list@.len() ==> (#[trigger] list@[k])@ == before[k],
            dropped == old_entries(before.take(i as int), cutoff@),
            dropped <= i * usize::MAX,
        decreases list.len() - i,
    {
        proof {
            assert(before.take(i as int + 1).drop_last() =~= before.take(i as int));
            lemma_kept_from(before[i as int].daily_usage, cutoff@);
            assert((i + 1) * usize::MAX == i * usize::MAX + usize::MAX) by (nonlinear_arith);
            assert(i * usize::MAX <= usize::MAX * usize::MAX) by (nonlinear_arith)
                requires
                    i <= usize::MAX,
            ;
            assert(usize::MAX * usize::MAX + usize::MAX <= u128::MAX) by (nonlinear_arith)
                requires
                    usize::MAX <= u64::MAX,
            ;
        }
        let gone = list[i].daily_usage.retain_from(cutoff);
        dropped = dropped + gone as u128;
        i += 1;
    }
    proof {
        assert(before.take(i as int) =~= before);
    }
    dropped
}

/// What a deletion is to do.
#[derive(Debug)]
pub enum DeletePlan {
    /// Empty every ledger.
    All,
    /// Drop the entries before the cutoff date, which lies `days` days back.
    OlderThan { days: i64, cutoff: String },
}

/// What a deletion did.
#[derive(Debug, Clone, Copy, PartialEq, Eq, Structural)]
pub enum DeleteOutcome {
    /// The user declined; nothing changed.
    Aborted,
    /// The ledgers of this many processes were emptied.
    ClearedAll { processes: usize },
    /// This many entries older than this many days were dropped.
    DroppedOlder { entries: u128, days: i64 },
}

/// The process list of a machine after a deletion.
pub open spec fn list_after_delete(
    list: Seq<ProcessView>,
    cutoff: Option<Seq<char>>,
) -> Seq<ProcessView> {
    match cutoff {
        None => cleared(list),
        Some(date) => pruned(list, date),
    }
}

/// The cutoff of a plan, in the model: none for a plan that empties all.
pub open spec fn plan_cutoff(plan: DeletePlan) -> Option<Seq<char>> {
    match plan {
        DeletePlan::All => None,
        DeletePlan::OlderThan { days, cutoff } => Some(cutoff@),
    }
}

/// What a deletion is to do, given what was asked for and today's date:
/// exactly one of everything and a retention window must be named.
pub fn plan_delete(delete_all: bool, duration: Option<&str>, today: &str) -> (r: Result<
    DeletePlan,
    CommandError,
>)
    ensures
        match (delete_all, duration) {
            (false, None) => r == Err::<DeletePlan, CommandError>(
                CommandError::DeleteTargetMissing,
            ),
            (true, Some(_)) => r == Err::<DeletePlan, CommandError>(
                CommandError::DeleteTargetConflict,
            ),
            (true, None) => r matches Ok(DeletePlan::All),
            (false, Some(text)) => match cutoff_of(text@, today@) {
                Ok((days, cutoff)) => r matches Ok(DeletePlan::OlderThan { days: d, cutoff: c })
                    && d == days && c@ == cutoff,
                Err(e) => r == Err::<DeletePlan, CommandError>(e),
            },
        },
{
    match duration {
        None => if delete_all {
            Ok(DeletePlan::All)
        } else {
            Err(CommandError::DeleteTargetMissing)
        },
        Some(text) => if delete_all {
            Err(CommandError::DeleteTargetConflict)
        } else {
            match cutoff_date(text, today) {
                Ok((days, cutoff)) => Ok(DeletePlan::OlderThan { days, cutoff }),
                Err(e) => Err(e),
            }
        },
    }
}

/// Carries out a deletion on the processes of machine `machine_id`: every
/// ledger is emptied, or loses its entries before the cutoff. Titles and tags
/// stay. A machine that the store does not know gets an empty process list.
pub fn apply_delete(store: &mut LachesStore, machine_id: &str, plan: &DeletePlan) -> (r:
    DeleteOutcome)
    ensures
        final(store)@ == old(store)@.with_machine(
            machine_id@,
            list_after_delete(
                machine_list(old(store)@.machine_data, machine_id@),
                plan_cutoff(*plan),
            ),
        ),
        match *plan {
            DeletePlan::All => r == (DeleteOutcome::ClearedAll {
                processes: machine_list(old(store)@.machine_data, machine_id@).len() as usize,
            }),
            DeletePlan::OlderThan { days, cutoff } => r == (DeleteOutcome::DroppedOlder {
                entries: old_entries(
                    machine_list(old(store)@.machine_data, machine_id@),
                    cutoff@,
                ) as u128,
                days,
            }),
        },
{
    let processes = store.get_machine_processes_mut(machine_id);
    match plan {
        DeletePlan::All => {
            let count = processes.len();
            clear_usage(processes);
            DeleteOutcome::ClearedAll { processes: count }
        },
        DeletePlan::OlderThan { days, cutoff } => {
            let entries = prune_usage(processes, cutoff.as_str());
            DeleteOutcome::DroppedOlder { entries, days: *days }
        },
    }
}

/// Whether a deletion that was asked of the store `before`, with `today` as
/// today's date, leaves the store `after` and reports `r`. Exactly one of
/// everything and a retention window must be named; nothing changes unless
/// the request is sound and the user has confirmed.
pub open spec fn delete_result(
    before: StoreView,
    after: StoreView,
    r: Result<DeleteOutcome, CommandError>,
    machine_id: Seq<char>,
    delete_all: bool,
    duration: Option<Seq<char>>,
    confirmed: bool,
    today: Seq<char>,
) -> bool {
    let list = machine_list(before.machine_data, machine_id);
    match (delete_all, duration) {
        (false, None) => r == Err::<DeleteOutcome, CommandError>(
            CommandError::DeleteTargetMissing,
        ) && after == before,
        (true, Some(_)) => r == Err::<DeleteOutcome, CommandError>(
            CommandError::DeleteTargetConflict,
        ) && after == before,
        (true, None) => if confirmed {
            r == Ok::<DeleteOutcome, CommandError>(
                DeleteOutcome::ClearedAll { processes: list.len() as usize },
            ) && after == before.with_machine(machine_id, cleared(list))
        } else {
            r == Ok::<DeleteOutcome, CommandError>(DeleteOutcome::Aborted) && after == before
        },
        (false, Some(text)) => match cutoff_of(text, today) {
            Err(e) => r == Err::<DeleteOutcome, CommandError>(e) && after == before,
            Ok((days, cutoff)) => if confirmed {
                r == Ok::<DeleteOutcome, CommandError>(
                    DeleteOutcome::DroppedOlder {
                        entries: old_entries(list, cutoff) as u128,
                        days,
                    },
                ) && after == before.with_machine(machine_id, pruned(list, cutoff))
            } else {
                r == Ok::<DeleteOutcome, CommandError>(DeleteOutcome::Aborted) && after == before
            },
        },
    }
}

/// Deletes recorded time of machine `machine_id`, with `today` as today's
/// date. What is asked for is checked first; then nothing happens unless the
/// user has confirmed.
pub fn delete_on(
    store: &mut LachesStore,
    machine_id: &str,
    delete_all: bool,
    duration: Option<&str>,
    confirmed: bool,
    today: &str,
) -> (r: Result<DeleteOutcome, CommandError>)
    ensures
        delete_result(
            old(store)@,
            final(store)@,
            r,
            machine_id@,
            delete_all,
            text_view(duration),
            confirmed,
            today@,
        ),
{
    match plan_delete(delete_all, duration, today) {
        Err(e) => Err(e),
        Ok(plan) => if confirmed {
            Ok(apply_delete(store, machine_id, &plan))
        } else {
            Ok(DeleteOutcome::Aborted)
        },
    }
}

/// Deletes recorded time of machine `machine_id` as of today, the date that
/// the clock gives: the store and the report are those of `delete_result`
/// for that date. What does not depend on the date is stated by itself: the
/// two misuses of the flags, a retention window that is refused, the
/// deletion of everything, and that nothing changes unless the request is
/// sound and the user has confirmed.
pub fn confirm_delete_store(
    laches_store: &mut LachesStore,
    machine_id: &str,
    delete_all: bool,
    duration: Option<&str>,
    confirmed: bool,
) -> (r: Result<DeleteOutcome, CommandError>)
    ensures
        exists|today: Seq<char>| #[trigger]
            delete_result(
                old(laches_store)@,
                final(laches_store)@,
                r,
                machine_id@,
                delete_all,
                text_view(duration),
                confirmed,
                today,
            ),
        !delete_all && duration is None ==> r == Err::<DeleteOutcome, CommandError>(
            CommandError::DeleteTargetMissing,
        ),
        delete_all && duration is Some ==> r == Err::<DeleteOutcome, CommandError>(
            CommandError::DeleteTargetConflict,
        ),
        !delete_all ==> (duration matches Some(text) ==> (duration_days(text@) matches Err(e)
            ==> r == Err::<DeleteOutcome, CommandError>(e))),
        !delete_all ==> (duration matches Some(text) ==> (duration_days(text@) is Ok && r is Err
            ==> r == Err::<DeleteOutcome, CommandError>(CommandError::DurationOutOfRange))),
        delete_all && duration is None ==> r == Ok::<DeleteOutcome, CommandError>(
            if confirmed {
                DeleteOutcome::ClearedAll {
                    processes: machine_list(
                        old(laches_store)@.machine_data,
                        machine_id@,
                    ).len() as usize,
                }
            } else {
                DeleteOutcome::Aborted
            },
        ),
        (r is Err || !confirmed) ==> final(laches_store)@ == old(laches_store)@,
        !confirmed && r is Ok ==> r == Ok::<DeleteOutcome, CommandError>(DeleteOutcome::Aborted),
        confirmed && delete_all && duration is None ==> final(laches_store)@ == old(laches_store)@.with_machine(
            machine_id@,
            cleared(machine_list(old(laches_store)@.machine_data, machine_id@)),
        ),
{
    let today = today_date();
    delete_on(laches_store, machine_id, delete_all, duration, confirmed, today.as_str())
}

/// A process as it is exported: its ledger from the cutoff on, or all of it
/// where there is no cutoff.
pub open spec fn export_form(process: ProcessView, cutoff: Option<Seq<char>>) -> ProcessView {
    match cutoff {
        Some(date) => ProcessView {
            daily_usage: kept_from(process.daily_usage, date),
            ..process
        },
        None => process,
    }
}

/// The processes of `list` that an export holds, in the order of `list`:
/// each in its export form, those without usage left out.
pub open spec fn export_candidates(list: Seq<ProcessView>, cutoff: Option<Seq<char>>) -> Seq<
    ProcessView,
>
    decreases list.len(),
{
    if list.len() == 0 {
        list
    } else if total_of(export_form(list.last(), cutoff).daily_usage) > 0 {
        export_candidates(list.drop_last(), cutoff).push(export_form(list.last(), cutoff))
    } else {
        export_candidates(list.drop_last(), cutoff)
    }
}

/// The key by which an export is ranked: the total usage.
pub open spec fn total_key() -> spec_fn(ProcessView) -> nat {
    |process: ProcessView| total_of(process.daily_usage)
}

/// What an export holds: the candidates ranked by total usage, largest first.
pub open spec fn exported(list: Seq<ProcessView>, cutoff: Option<Seq<char>>) -> Seq<ProcessView> {
    ranked(export_candidates(list, cutoff), total_key())
}

/// The sum of the total usage of `list`.
pub open spec fn grand_total(list: Seq<ProcessView>) -> nat
    decreases list.len(),
{
    if list.len() == 0 {
        0
    } else {
        grand_total(list.drop_last()) + total_of(list.last().daily_usage)
    }
}

/// Puts `process` in its place in `list`, which is ranked by total usage.
pub fn insert_by_total(list: &mut Vec<Process>, process: Process)
    ensures
        process_views(final(list)@) == insert_ranked(
            process_views(old(list)@),
            process@,
            total_key(),
        ),
{
    let ghost before = process_views(list@);
    let total = process.get_total_usage();
    let mut position: usize = list.len();
    while position > 0 && list[position - 1].get_total_usage() < total
        invariant
            position <= list.len(),
            process_views(list@) == before,
            total == total_of(process@.daily_usage),
            forall|k: int|
                position <= k < list.len() ==> total_of(before[k].daily_usage) < total,
        decreases position,
    {
        position -= 1;
    }
    proof {
        lemma_insert_ranked_at(before, process@, total_key(), position as int);
    }
    list.insert(position, process);
}

/// The sum of the total usage of `list`.
pub fn total_tracked(list: &Vec<Process>) -> (r: u128)
    ensures
        r == grand_total(process_views(list@)),
{
    let ghost all = process_views(list@);
    let mut sum: u128 = 0;
    let mut i: usize = 0;
    while i < list.len()
        invariant
            i <= list.len(),
            all == process_views(list@),
            sum == grand_total(all.take(i as int)),
            sum <= i * u64::MAX,
        decreases list.len() - i,
    {
        proof {
            assert(all.take(i as int + 1).drop_last() =~= all.take(i as int));
            assert((i + 1) * u64::MAX == i * u64::MAX + u64::MAX) by (nonlinear_arith);
            assert(i * u64::MAX <= usize::MAX * u64::MAX) by (nonlinear_arith)
                requires
                    i <= usize::MAX,
            ;
            assert(usize::MAX * u64::MAX + u64::MAX <= u128::MAX) by (nonlinear_arith)
                requires
                    usize::MAX <= u64::MAX,
            ;
        }
        sum = sum + list[i].get_total_usage() as u128;
        i += 1;
    }
    proof {
        assert(all.take(i as int) =~= all);
    }
    sum
}

/// The export of `list`: every process from the cutoff on, those without
/// usage left out, ranked by total usage, largest first.
pub fn export_processes(list: &Vec<Process>, cutoff: Option<&str>) -> (r: Vec<Process>)
    ensures
        process_views(r@) == exported(process_views(list@), text_view(cutoff)),
{
    let ghost all = process_views(list@);
    let ghost limit = text_view(cutoff);
    let mut out: Vec<Process> = Vec::new();
    let mut i: usize = 0;
    while i < list.len()
        invariant
            i <= list.len(),
            all == process_views(list@),
            limit == text_view(cutoff),
            process_views(out@) == ranked(export_candidates(all.take(i as int), limit), total_key()),
        decreases list.len() - i,
    {
        proof {
            assert(all.take(i as int + 1).drop_last() =~= all.take(i as int));
        }
        let process = &list[i];
        let ledger = match cutoff {
            Some(date) => process.daily_usage.kept_from(date),
            None => process.daily_usage.clone(),
        };
        if ledger.total() > 0 {
            let candidate = Process {
                title: process.title.clone(),
                daily_usage: ledger,
                tags: clone_strings(&process.tags),
                last_seen: process.last_seen.clone(),
            };
            proof {
                let next = export_candidates(all.take(i as int + 1), limit);
                assert(next.drop_last() =~= export_candidates(all.take(i as int), limit));
            }
            insert_by_total(&mut out, candidate);
        }
        i += 1;
    }
    proof {
        assert(all.take(i as int) =~= all);
    }
    out
}

/// An export: the processes in rank order and the time they add up to.
#[derive(Debug)]
pub struct Export {
    pub processes: Vec<Process>,
    pub total_time: u128,
}

/// The cutoff of an export, given the retention window and today's date:
/// none where no window is given.
pub open spec fn export_cutoff(duration: Option<Seq<char>>, today: Seq<char>) -> Result<
    Option<Seq<char>>,
    CommandError,
> {
    match duration {
        None => Ok(None),
        Some(text) => match cutoff_of(text, today) {
            Ok((days, cutoff)) => Ok(Some(cutoff)),
            Err(e) => Err(e),
        },
    }
}

/// Whether `r` is what an export of `store` gives with `today` as today's
/// date: the error of a retention window that is refused, or else the
/// selected processes from the cutoff on, ranked, with their grand total.
pub open spec fn export_result(
    store: StoreView,
    r: Result<Export, CommandError>,
    machine_id: Seq<char>,
    duration: Option<Seq<char>>,
    all_machines: bool,
    today: Seq<char>,
) -> bool {
    match export_cutoff(duration, today) {
        Err(e) => r == Err::<Export, CommandError>(e),
        Ok(cutoff) => r matches Ok(export) && process_views(export.processes@) == exported(
            store.selected(machine_id, all_machines),
            cutoff,
        ) && export.total_time == grand_total(process_views(export.processes@)),
    }
}

/// The export of the store with `today` as today's date: the processes of
/// all machines or of machine `machine_id`, from the cutoff of the retention
/// window on where one is given.
pub fn export_on(
    store: &LachesStore,
    machine_id: &str,
    duration: Option<&str>,
    all_machines: bool,
    today: &str,
) -> (r: Result<Export, CommandError>)
    ensures
        export_result(store@, r, machine_id@, text_view(duration), all_machines, today@),
{
    let cutoff: Option<String> = match duration {
        None => None,
        Some(text) => match cutoff_date(text, today) {
            Ok((_, date)) => Some(date),
            Err(e) => {
                return Err(e);
            },
        },
    };
    let selected = store.selected_processes(machine_id, all_machines);
    let processes = match &cutoff {
        Some(date) => export_processes(&selected, Some(date.as_str())),
        None => export_processes(&selected, None),
    };
    let total_time = total_tracked(&processes);
    Ok(Export { processes, total_time })
}

/// The export of the store as of today, the date that the clock gives: the
/// result is that of `export_result` for that date. What does not depend on
/// the date is stated by itself: the export without a retention window, and
/// the error of a window that is refused.
pub fn export_store(
    laches_store: &LachesStore,
    machine_id: &str,
    duration: Option<&str>,
    all_machines: bool,
) -> (r: Result<Export, CommandError>)
    ensures
        exists|today: Seq<char>| #[trigger]
            export_result(
                laches_store@,
                r,
                machine_id@,
                text_view(duration),
                all_machines,
                today,
            ),
        duration is None ==> (r matches Ok(export) && process_views(export.processes@) == exported(
            laches_store@.selected(machine_id@, all_machines),
            None,
        ) && export.total_time == grand_total(process_views(export.processes@))),
        duration matches Some(text) ==> (duration_days(text@) matches Err(e) ==> r == Err::<
            Export,
            CommandError,
        >(e)),
        duration matches Some(text) ==> (duration_days(text@) is Ok && r is Err ==> r == Err::<
            Export,
            CommandError,
        >(CommandError::DurationOutOfRange)),
        duration matches Some(text) ==> (r is Ok ==> duration_days(text@) is Ok),
{
    let today = today_date();
    export_on(laches_store, machine_id, duration, all_machines, today.as_str())
}

} // verus!
