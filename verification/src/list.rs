//! The report engine: which processes a report shows, with what usage, in
//! what order, and the figures that summarise them.
//!
//! A report is a function of the store, the filters and today's date. It
//! selects the processes of one machine or of all, keeps those that pass the
//! mode filter and the tag filter, computes for each the usage to display,
//! drops those with none, and ranks the rest by that usage, largest first,
//! processes of equal usage in the order in which they were met.

use crate::clock::today_date;
use crate::error::CommandError;
use crate::filtering::{matches_any, matches_any_pattern};
use crate::ledger::{total_of, usage_of};
use crate::process::{process_views, Process, ProcessView};
use crate::process_list::{ListMode, OptionsView, ProcessListOptions};
use crate::rank::{descending, insert_ranked, lemma_insert_ranked_at, lemma_ranked, ranked};
use crate::store::{LachesStore, StoreView};
use crate::text::{clone_strings, views};
use vstd::prelude::*;

verus! {

/// The figures of one process.
#[derive(Debug)]
pub struct ProcessStats {
    pub title: String,
    pub today_usage: u64,
    pub total_usage: u64,
    pub active_days: usize,
    pub avg_per_day: u64,
    pub tags: Vec<String>,
}

/// One line of a report: a process and the usage that the report displays.
#[derive(Debug)]
pub struct ReportRow {
    pub stats: ProcessStats,
    pub display_usage: u64,
}

/// A report: its lines in rank order and the figures that summarise them.
#[derive(Debug)]
pub struct Report {
    /// The lines, largest usage first.
    pub rows: Vec<ReportRow>,
    /// The largest usage displayed, and 1 where there is no line: the scale
    /// of percentages and bars.
    pub max_usage: u64,
    /// The sum of the usage displayed.
    pub total_usage: u128,
    /// The number of lines.
    pub total_processes: usize,
    /// The usage displayed per line, rounded down; 0 where there is no line.
    pub average_usage: u64,
    /// The sum of the active days of all lines.
    pub total_active_days: u128,
}

/// The mathematical model of a report line.
pub struct RowView {
    pub title: Seq<char>,
    pub today_usage: nat,
    pub total_usage: nat,
    pub active_days: nat,
    pub avg_per_day: nat,
    pub tags: Seq<Seq<char>>,
    pub display_usage: nat,
}

/// The filters of a report.
pub struct Query {
    /// Show only processes that carry this tag.
    pub tag_filter: Option<Seq<char>>,
    /// Display the usage of today.
    pub today_only: bool,
    /// Display the usage of this date; it takes precedence over `today_only`.
    pub date_filter: Option<Seq<char>>,
}

impl View for ProcessStats {
    type V = RowView;

    open spec fn view(&self) -> RowView {
        RowView {
            title: self.title@,
            today_usage: self.today_usage as nat,
            total_usage: self.total_usage as nat,
            active_days: self.active_days as nat,
            avg_per_day: self.avg_per_day as nat,
            tags: views(self.tags@),
            display_usage: 0,
        }
    }
}

impl View for ReportRow {
    type V = RowView;

    open spec fn view(&self) -> RowView {
        RowView { display_usage: self.display_usage as nat, ..self.stats@ }
    }
}

/// The models of a list of report lines, in order.
pub open spec fn row_views(rows: Seq<ReportRow>) -> Seq<RowView> {
    Seq::new(rows.len(), |i: int| rows[i]@)
}

/// A pattern list that may be absent, read as empty where it is.
pub open spec fn or_empty(list: Option<Seq<Seq<char>>>) -> Seq<Seq<char>> {
    match list {
        Some(patterns) => patterns,
        None => Seq::<Seq<char>>::empty(),
    }
}

/// Whether the mode filter lets a title through: in whitelist mode the titles
/// that the whitelist matches, in blacklist mode those that the blacklist
/// does not match, in default mode all. An absent list is an empty one.
pub open spec fn passes_mode(options: OptionsView, title: Seq<char>) -> bool {
    match options.mode {
        ListMode::Whitelist => matches_any(title, or_empty(options.whitelist)),
        ListMode::Blacklist => !matches_any(title, or_empty(options.blacklist)),
        ListMode::Default => true,
    }
}

/// Whether the tag filter lets a process through: any process where no tag
/// is asked for, else those that carry exactly that tag.
pub open spec fn passes_tag(process: ProcessView, tag_filter: Option<Seq<char>>) -> bool {
    match tag_filter {
        Some(tag) => process.tags.contains(tag),
        None => true,
    }
}

/// The usage that a report displays for a process: that of the date asked
/// for, else that of today where only today is asked for, else the total.
pub open spec fn display_usage(process: ProcessView, query: Query, today: Seq<char>) -> nat {
    match query.date_filter {
        Some(date) => usage_of(process.daily_usage, date),
        None => if query.today_only {
            usage_of(process.daily_usage, today)
        } else {
            total_of(process.daily_usage)
        },
    }
}

/// The average of `total` over `days`, rounded down; 0 where there is no day.
pub open spec fn average(total: nat, days: nat) -> nat {
    if days > 0 {
        total / days
    } else {
        0
    }
}

/// The figures of a process, with no usage displayed yet.
pub open spec fn stats_of(process: ProcessView, today: Seq<char>) -> RowView {
    RowView {
        title: process.title,
        today_usage: usage_of(process.daily_usage, today),
        total_usage: total_of(process.daily_usage),
        active_days: process.daily_usage.len(),
        avg_per_day: average(total_of(process.daily_usage), process.daily_usage.len()),
        tags: process.tags,
        display_usage: 0,
    }
}

/// The report line of a process.
pub open spec fn row_of(process: ProcessView, query: Query, today: Seq<char>) -> RowView {
    RowView { display_usage: display_usage(process, query, today), ..stats_of(process, today) }
}

/// Whether a report shows a process: it passes both filters and has usage
/// to display.
pub open spec fn is_shown(
    options: OptionsView,
    process: ProcessView,
    query: Query,
    today: Seq<char>,
) -> bool {
    passes_mode(options, process.title) && passes_tag(process, query.tag_filter) && display_usage(
        process,
        query,
        today,
    ) > 0
}

/// The lines of the processes that a report shows, in the order of
/// `processes`.
pub open spec fn shown_rows(
    options: OptionsView,
    processes: Seq<ProcessView>,
    query: Query,
    today: Seq<char>,
) -> Seq<RowView>
    decreases processes.len(),
{
    if processes.len() == 0 {
        Seq::<RowView>::empty()
    } else if is_shown(options, processes.last(), query, today) {
        shown_rows(options, processes.drop_last(), query, today).push(
            row_of(processes.last(), query, today),
        )
    } else {
        shown_rows(options, processes.drop_last(), query, today)
    }
}

/// The key by which report lines are ranked: the usage displayed.
pub open spec fn row_usage() -> spec_fn(RowView) -> nat {
    |row: RowView| row.display_usage
}

/// The largest usage among `rows`, and 1 where there is none.
pub open spec fn max_usage_of(rows: Seq<RowView>) -> nat
    decreases rows.len(),
{
    if rows.len() == 0 {
        1
    } else if rows.last().display_usage > max_usage_of(rows.drop_last()) {
        rows.last().display_usage
    } else {
        max_usage_of(rows.drop_last())
    }
}

/// The sum of the usage of `rows`.
pub open spec fn usage_sum(rows: Seq<RowView>) -> nat
    decreases rows.len(),
{
    if rows.len() == 0 {
        0
    } else {
        usage_sum(rows.drop_last()) + rows.last().display_usage
    }
}

/// The sum of the active days of `rows`.
pub open spec fn active_days_sum(rows: Seq<RowView>) -> nat
    decreases rows.len(),
{
    if rows.len() == 0 {
        0
    } else {
        active_days_sum(rows.drop_last()) + rows.last().active_days
    }
}

/// The lines of the report on a store, in rank order.
pub open spec fn report_rows(
    store: StoreView,
    machine_id: Seq<char>,
    all_machines: bool,
    query: Query,
    today: Seq<char>,
) -> Seq<RowView> {
    ranked(
        shown_rows(
            store.process_list_options,
            store.selected(machine_id, all_machines),
            query,
            today,
        ),
        row_usage(),
    )
}

impl Report {
    /// Whether the report is the one that `rows` give: those lines, and the
    /// figures that summarise them.
    pub open spec fn is_report_of(&self, rows: Seq<RowView>) -> bool {
        &&& row_views(self.rows@) == rows
        &&& self.max_usage == max_usage_of(rows)
        &&& self.total_usage == usage_sum(rows)
        &&& self.total_processes == rows.len()
        &&& self.average_usage == average(usage_sum(rows), rows.len())
        &&& self.total_active_days == active_days_sum(rows)
    }
}

/// The lines of a report are ordered by the usage displayed, largest first,
/// and are exactly the lines of the processes shown.
pub proof fn lemma_report_rows_ranked(
    store: StoreView,
    machine_id: Seq<char>,
    all_machines: bool,
    query: Query,
    today: Seq<char>,
)
    ensures
        descending(report_rows(store, machine_id, all_machines, query, today), row_usage()),
        report_rows(store, machine_id, all_machines, query, today).to_multiset() == shown_rows(
            store.process_list_options,
            store.selected(machine_id, all_machines),
            query,
            today,
        ).to_multiset(),
{
    lemma_ranked(
        shown_rows(
            store.process_list_options,
            store.selected(machine_id, all_machines),
            query,
            today,
        ),
        row_usage(),
    );
}

/// Every line of a report stands for a process that passed the filters, has
/// usage to display, and the largest usage is at least that of any line.
pub proof fn lemma_shown_rows(
    options: OptionsView,
    processes: Seq<ProcessView>,
    query: Query,
    today: Seq<char>,
)
    ensures
        shown_rows(options, processes, query, today).len() <= processes.len(),
        forall|k: int|
            0 <= k < shown_rows(options, processes, query, today).len() ==> (#[trigger] shown_rows(
                options,
                processes,
                query,
                today,
            )[k]).display_usage > 0 && exists|m: int|
                0 <= m < processes.len() && is_shown(options, processes[m], query, today)
                    && shown_rows(options, processes, query, today)[k] == row_of(
                    #[trigger] processes[m],
                    query,
                    today,
                ),
    decreases processes.len(),
{
    if processes.len() > 0 {
        let shorter = processes.drop_last();
        lemma_shown_rows(options, shorter, query, today);
        let rows = shown_rows(options, processes, query, today);
        let before = shown_rows(options, shorter, query, today);
        assert forall|k: int| 0 <= k < rows.len() implies (#[trigger] rows[k]).display_usage > 0
            && exists|m: int|
            0 <= m < processes.len() && is_shown(options, processes[m], query, today) && rows[k]
                == row_of(#[trigger] processes[m], query, today) by {
            if k < before.len() {
                assert(rows[k] == before[k]);
                let m = choose|m: int|
                    0 <= m < shorter.len() && is_shown(options, shorter[m], query, today)
                        && before[k] == row_of(#[trigger] shorter[m], query, today);
                assert(processes[m] == shorter[m]);
            } else {
                assert(rows[k] == row_of(processes[processes.len() - 1], query, today));
            }
        }
    }
}

impl ProcessStats {
    /// The figures of `process`, with `today` as today's date.
    pub fn from_process(process: &Process, today: &str) -> (r: ProcessStats)
        ensures
            r@ == stats_of(process@, today@),
    {
        let today_usage = process.usage_on(today);
        let total_usage = process.get_total_usage();
        let active_days = process.daily_usage.len();
        let avg_per_day = if active_days > 0 {
            total_usage / (active_days as u64)
        } else {
            0
        };
        ProcessStats {
            title: process.title.clone(),
            today_usage,
            total_usage,
            active_days,
            avg_per_day,
            tags: clone_strings(&process.tags),
        }
    }

    /// The usage to display: that of the date asked for, handed in with the
    /// date, else today's where only today is asked for, else the total.
    pub fn get_display_usage(&self, date_filter: Option<(&str, u64)>, today_only: bool) -> (r: u64)
        ensures
            r == match date_filter {
                Some((_, usage)) => usage,
                None => if today_only {
                    self.today_usage
                } else {
                    self.total_usage
                },
            },
    {
        match date_filter {
            Some((_, usage)) => usage,
            None => if today_only {
                self.today_usage
            } else {
                self.total_usage
            },
        }
    }
}

/// Checks the time window asked of a report: today only, or one date, not
/// both. The engine itself gives a date precedence; a command is to refuse
/// the pair before it gets that far.
pub fn validate_window(today_only: bool, date_filter: Option<&str>) -> (r: Result<
    (),
    CommandError,
>)
    ensures
        r == if today_only && date_filter is Some {
            Err::<(), CommandError>(CommandError::WindowConflict)
        } else {
            Ok::<(), CommandError>(())
        },
{
    if today_only && date_filter.is_some() {
        Err(CommandError::WindowConflict)
    } else {
        Ok(())
    }
}

/// Whether the mode filter lets the title `title` through.
pub fn mode_lets_through(options: &ProcessListOptions, title: &str) -> (r: bool)
    ensures
        r == passes_mode(options@, title@),
{
    let nothing: Vec<String> = Vec::new();
    match options.mode {
        ListMode::Whitelist => {
            let patterns = match &options.whitelist {
                Some(list) => list,
                None => &nothing,
            };
            matches_any_pattern(title, patterns.as_slice())
        },
        ListMode::Blacklist => {
            let patterns = match &options.blacklist {
                Some(list) => list,
                None => &nothing,
            };
            !matches_any_pattern(title, patterns.as_slice())
        },
        ListMode::Default => true,
    }
}

/// The model of the filters handed to a report.
pub open spec fn query_of(tag_filter: Option<&str>, today_only: bool, date_filter: Option<&str>) -> Query {
    Query {
        tag_filter: match tag_filter {
            Some(tag) => Some(tag@),
            None => None,
        },
        today_only,
        date_filter: match date_filter {
            Some(date) => Some(date@),
            None => None,
        },
    }
}

/// The usage that a report displays for `process`.
pub fn usage_to_display(
    process: &Process,
    today_only: bool,
    date_filter: Option<&str>,
    today: &str,
) -> (r: u64)
    ensures
        r == display_usage(process@, query_of(None, today_only, date_filter), today@),
{
    match date_filter {
        Some(date) => process.usage_on(date),
        None => if today_only {
            process.usage_on(today)
        } else {
            process.get_total_usage()
        },
    }
}

/// Puts `row` in its place in the ranked list `rows`.
pub fn insert_row(rows: &mut Vec<ReportRow>, row: ReportRow)
    ensures
        row_views(final(rows)@) == insert_ranked(row_views(old(rows)@), row@, row_usage()),
{
    let ghost before = row_views(rows@);
    let mut position: usize = rows.len();
    while position > 0 && rows[position - 1].display_usage < row.display_usage
        invariant
            position <= rows.len(),
            row_views(rows@) == before,
            forall|k: int|
                position <= k < rows.len() ==> before[k].display_usage < row@.display_usage,
        decreases position,
    {
        position -= 1;
    }
    proof {
        lemma_insert_ranked_at(before, row@, row_usage(), position as int);
    }
    rows.insert(position, row);
}

/// The report on `store` with `today` as today's date: the lines of
/// `report_rows` and the figures that summarise them.
pub fn report_on(
    store: &LachesStore,
    machine_id: &str,
    tag_filter: Option<&str>,
    today_only: bool,
    date_filter: Option<&str>,
    all_machines: bool,
    today: &str,
) -> (r: Report)
    ensures
        r.is_report_of(
            report_rows(
                store@,
                machine_id@,
                all_machines,
                query_of(tag_filter, today_only, date_filter),
                today@,
            ),
        ),
{
    let processes = store.selected_processes(machine_id, all_machines);
    let ghost query = query_of(tag_filter, today_only, date_filter);
    let ghost options = store@.process_list_options;
    let ghost selected = process_views(processes@);
    let mut rows: Vec<ReportRow> = Vec::new();
    let mut i: usize = 0;
    while i < processes.len()
        invariant
            i <= processes.len(),
            selected == process_views(processes@),
            options == store@.process_list_options,
            query == query_of(tag_filter, today_only, date_filter),
            row_views(rows@) == ranked(
                shown_rows(options, selected.take(i as int), query, today@),
                row_usage(),
            ),
        decreases processes.len() - i,
    {
        let process = &processes[i];
        proof {
            assert(selected.take(i as int + 1).drop_last() =~= selected.take(i as int));
        }
        let through = mode_lets_through(&store.process_list_options, process.title.as_str());
        let tagged = match tag_filter {
            Some(tag) => process.has_tag(tag),
            None => true,
        };
        let usage = usage_to_display(process, today_only, date_filter, today);
        if through && tagged && usage > 0 {
            let row = ReportRow {
                stats: ProcessStats::from_process(process, today),
                display_usage: usage,
            };
            proof {
                let shown = shown_rows(options, selected.take(i as int + 1), query, today@);
                assert(shown.drop_last() =~= shown_rows(
                    options,
                    selected.take(i as int),
                    query,
                    today@,
                ));
            }
            insert_row(&mut rows, row);
        }
        i += 1;
    }
    proof {
        assert(selected.take(i as int) =~= selected);
    }
    summarise(rows)
}

/// The report made of `rows`: the lines as they are and the figures that
/// summarise them.
pub fn summarise(rows: Vec<ReportRow>) -> (r: Report)
    ensures
        r.is_report_of(row_views(rows@)),
{
    let ghost lines = row_views(rows@);
    let mut max_usage: u64 = 1;
    let mut total_usage: u128 = 0;
    let mut total_active_days: u128 = 0;
    let mut i: usize = 0;
    while i < rows.len()
        invariant
            i <= rows.len(),
            lines == row_views(rows@),
            max_usage == max_usage_of(lines.take(i as int)),
            total_usage == usage_sum(lines.take(i as int)),
            total_usage <= i * u64::MAX,
            total_active_days == active_days_sum(lines.take(i as int)),
            total_active_days <= i * usize::MAX,
        decreases rows.len() - i,
    {
        proof {
            assert(lines.take(i as int + 1).drop_last() =~= lines.take(i as int));
            assert((i + 1) * u64::MAX == i * u64::MAX + u64::MAX) by (nonlinear_arith);
            assert((i + 1) * usize::MAX == i * usize::MAX + usize::MAX) by (nonlinear_arith);
            assert(i * u64::MAX <= usize::MAX * u64::MAX) by (nonlinear_arith)
                requires
                    i <= usize::MAX,
            ;
            assert(i * usize::MAX <= usize::MAX * usize::MAX) by (nonlinear_arith)
                requires
                    i <= usize::MAX,
            ;
            assert(usize::MAX * u64::MAX + u64::MAX <= u128::MAX) by (nonlinear_arith)
                requires
                    usize::MAX <= u64::MAX,
            ;
            assert(usize::MAX * usize::MAX + usize::MAX <= u128::MAX) by (nonlinear_arith)
                requires
                    usize::MAX <= u64::MAX,
            ;
        }
        let usage = rows[i].display_usage;
        if usage > max_usage {
            max_usage = usage;
        }
        total_usage = total_usage + usage as u128;
        total_active_days = total_active_days + rows[i].stats.active_days as u128;
        i += 1;
    }
    proof {
        assert(lines.take(i as int) =~= lines);
    }
    let total_processes = rows.len();
    let average_usage: u64 = if total_processes > 0 {
        proof {
            assert(total_usage / (total_processes as u128) <= u64::MAX) by (nonlinear_arith)
                requires
                    total_usage <= total_processes * u64::MAX,
                    total_processes > 0,
            ;
        }
        (total_usage / (total_processes as u128)) as u64
    } else {
        0
    };
    Report { rows, max_usage, total_usage, total_processes, average_usage, total_active_days }
}

/// The report on `store` as of today. Which date today is comes from the
/// clock, so the report is the one for some date; where a date is asked for,
/// or the total, the lines and their order do not depend on it.
pub fn list_processes(
    store: &LachesStore,
    machine_id: &str,
    tag_filter: Option<&str>,
    today_only: bool,
    date_filter: Option<&str>,
    all_machines: bool,
) -> (r: Report)
    ensures
        exists|today: Seq<char>|
            r.is_report_of(
                #[trigger] report_rows(
                    store@,
                    machine_id@,
                    all_machines,
                    query_of(tag_filter, today_only, date_filter),
                    today,
                ),
            ),
{
    let today = today_date();
    report_on(
        store,
        machine_id,
        tag_filter,
        today_only,
        date_filter,
        all_machines,
        today.as_str(),
    )
}

} // verus!
