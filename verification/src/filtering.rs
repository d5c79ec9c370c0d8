//! Pattern matching of process titles against the whitelist and the
//! blacklist, and the commands that edit the two lists.
//!
//! A pattern matches a title when the two are equal, or when the pattern
//! compiles as a regular expression that matches somewhere in the title.
//! Regular expressions are compiled and run by the `regex` crate.

use crate::cli::FilterListAction;
use crate::error::{list_name_spec, CommandError};
use crate::process::{process_views, Process, ProcessView};
use crate::process_list::list_view;
use crate::store::{machine_list, LachesStore};
use crate::text::{
    chars_of, first_index_of, lemma_first_index_of, position_of, str_eq, views,
};
use vstd::prelude::*;
use vstd::string::*;

verus! {

/// The message with which `Regex::new` refuses `pattern`; `None` where the
/// pattern compiles.
pub uninterp spec fn regex_error(pattern: Seq<char>) -> Option<Seq<char>>;

/// Whether the regular expression compiled from `pattern` matches anywhere in
/// `text`, as `Regex::is_match` reports it. Meaningful where the pattern
/// compiles.
pub uninterp spec fn regex_is_match(pattern: Seq<char>, text: Seq<char>) -> bool;

/// Compiles `pattern` with `Regex::new` and searches `text` with
/// `Regex::is_match`: whether there is a match, or the message of the error
/// where the pattern does not compile. The two outcomes depend on the
/// arguments alone and are named `regex_error` and `regex_is_match`.
#[verifier::external_body]
fn regex_probe(pattern: &str, text: &str) -> (r: Result<bool, String>)
    ensures
        match r {
            Ok(found) => regex_error(pattern@) is None && found == regex_is_match(
                pattern@,
                text@,
            ),
            Err(message) => regex_error(pattern@) == Some(message@),
        },
{
    match regex::Regex::new(pattern) {
        Ok(re) => Ok(re.is_match(text)),
        Err(e) => Err(e.to_string()),
    }
}

/// Whether `pattern` compiles and matches somewhere in `text`.
pub open spec fn regex_matches(pattern: Seq<char>, text: Seq<char>) -> bool {
    regex_error(pattern) is None && regex_is_match(pattern, text)
}

/// Whether `pattern` matches the title `name`: the two are equal, or the
/// pattern is a regular expression that matches in the title.
pub open spec fn pattern_matches(pattern: Seq<char>, name: Seq<char>) -> bool {
    pattern == name || regex_matches(pattern, name)
}

/// Whether some pattern of `patterns` matches the title `name`.
pub open spec fn matches_any(name: Seq<char>, patterns: Seq<Seq<char>>) -> bool {
    exists|i: int| 0 <= i < patterns.len() && pattern_matches(#[trigger] patterns[i], name)
}

/// The titles of `processes` in which the regular expression `pattern`
/// matches, in order; none where the pattern does not compile.
pub open spec fn regex_hits(pattern: Seq<char>, processes: Seq<ProcessView>) -> Seq<Seq<char>>
    decreases processes.len(),
{
    if processes.len() == 0 {
        Seq::<Seq<char>>::empty()
    } else if regex_matches(pattern, processes.last().title) {
        regex_hits(pattern, processes.drop_last()).push(processes.last().title)
    } else {
        regex_hits(pattern, processes.drop_last())
    }
}

/// Whether `pattern` holds a character that has a meaning in regular
/// expressions.
pub open spec fn likely_regex(pattern: Seq<char>) -> bool {
    exists|i: int| 0 <= i < pattern.len() && is_regex_char(#[trigger] pattern[i])
}

/// The characters by which a pattern is taken for a regular expression.
pub open spec fn is_regex_char(c: char) -> bool {
    c == '[' || c == ']' || c == '(' || c == ')' || c == '*' || c == '+' || c == '?' || c == '{'
        || c == '}' || c == '|' || c == '^' || c == '$' || c == '\\'
}

/// The list after `pattern` was removed from it: absent where nothing is
/// left.
pub open spec fn list_without(list: Seq<Seq<char>>, position: int) -> Option<Seq<Seq<char>>> {
    if list.len() == 1 {
        None
    } else {
        Some(list.remove(position))
    }
}

/// What a search says of one pattern: a match only where the pattern
/// compiled and the search found one. A pattern that does not compile never
/// matches.
pub fn search_says_match(search: &Result<bool, String>) -> (r: bool)
    ensures
        r == (*search == Ok::<bool, String>(true)),
{
    match search {
        Ok(found) => *found,
        Err(_) => false,
    }
}

/// What a search says of the pattern itself: the message of the error where
/// the pattern did not compile.
pub fn search_says_invalid(search: Result<bool, String>) -> (r: Option<String>)
    ensures
        match search {
            Ok(_) => r is None,
            Err(message) => r matches Some(m) && m@ == message@,
        },
{
    match search {
        Ok(_) => None,
        Err(message) => Some(message),
    }
}

/// The message with which `pattern` is refused as a regular expression, or
/// `None` where it compiles.
pub fn pattern_error(pattern: &str) -> (r: Option<String>)
    ensures
        match r {
            Some(message) => regex_error(pattern@) == Some(message@),
            None => regex_error(pattern@) is None,
        },
{
    search_says_invalid(regex_probe(pattern, ""))
}

/// Whether `pattern` matches the title `process_name`.
pub fn matches_pattern(process_name: &str, pattern: &str) -> (r: bool)
    ensures
        r == pattern_matches(pattern@, process_name@),
{
    if str_eq(pattern, process_name) {
        true
    } else {
        search_says_match(&regex_probe(pattern, process_name))
    }
}

/// Whether some pattern of `patterns` matches the title `process_name`. A
/// pattern matches when it equals the title or when it compiles as a regular
/// expression that matches in the title; an empty list matches nothing.
pub fn matches_any_pattern(process_name: &str, patterns: &[String]) -> (r: bool)
    ensures
        r == matches_any(process_name@, views(patterns@)),
        patterns@.len() == 0 ==> !r,
{
    let mut i: usize = 0;
    while i < patterns.len()
        invariant
            i <= patterns.len(),
            forall|k: int| 0 <= k < i ==> !pattern_matches(views(patterns@)[k], process_name@),
        decreases patterns.len() - i,
    {
        if matches_pattern(process_name, patterns[i].as_str()) {
            assert(pattern_matches(views(patterns@)[i as int], process_name@));
            return true;
        }
        i += 1;
    }
    false
}

/// Whether `pattern` holds a character that has a meaning in regular
/// expressions, and is therefore shown as one.
pub fn is_likely_regex(pattern: &str) -> (r: bool)
    ensures
        r == likely_regex(pattern@),
{
    let chars = chars_of(pattern);
    let mut i: usize = 0;
    while i < chars.len()
        invariant
            i <= chars.len(),
            chars@ == pattern@,
            forall|k: int| 0 <= k < i ==> !is_regex_char(chars@[k]),
        decreases chars.len() - i,
    {
        let c = chars[i];
        if c == '[' || c == ']' || c == '(' || c == ')' || c == '*' || c == '+' || c == '?' || c
            == '{' || c == '}' || c == '|' || c == '^' || c == '$' || c == '\\' {
            return true;
        }
        i += 1;
    }
    false
}

/// How an addition to a list ended.
#[derive(Debug, Clone, Copy, PartialEq, Eq, Structural)]
pub enum AddOutcome {
    /// The pattern is now the last of the list.
    Added,
    /// The list held the pattern already.
    AlreadyPresent,
    /// The user declined the regular expression.
    Aborted,
}

/// How the clearing of a list ended.
#[derive(Debug, Clone, Copy, PartialEq, Eq, Structural)]
pub enum ClearOutcome {
    /// There was nothing to clear.
    AlreadyEmpty,
    /// The list is absent now; it held this many patterns.
    Cleared(usize),
    /// The user declined.
    Aborted,
}

/// One line of a listing of patterns.
#[derive(Debug)]
pub struct PatternEntry {
    pub pattern: String,
    pub likely_regex: bool,
}

/// What a list command did.
#[derive(Debug)]
pub enum ListReport {
    Added(AddOutcome),
    Removed,
    Listed(Vec<PatternEntry>),
    Cleared(ClearOutcome),
}

/// The titles among the processes of machine `machine_id` in which the
/// regular expression `pattern` matches, in the order of the machine's list:
/// what the user is shown before the pattern is added. A pattern that does
/// not compile is an error.
pub fn preview_regex_matches(store: &LachesStore, machine_id: &str, pattern: &str) -> (r: Result<
    Vec<String>,
    CommandError,
>)
    ensures
        match r {
            Ok(titles) => regex_error(pattern@) is None && views(titles@) == regex_hits(
                pattern@,
                machine_list(store@.machine_data, machine_id@),
            ),
            Err(e) => e matches CommandError::InvalidRegex { detail } && regex_error(pattern@)
                == Some(detail@),
        },
{
    match pattern_error(pattern) {
        Some(detail) => Err(CommandError::InvalidRegex { detail }),
        None => {
            let processes = store.get_machine_processes(machine_id);
            Ok(titles_matching(pattern, &processes))
        },
    }
}

/// The titles of `processes` in which the regular expression `pattern`
/// matches, in order.
pub fn titles_matching(pattern: &str, processes: &Vec<Process>) -> (r: Vec<String>)
    ensures
        views(r@) == regex_hits(pattern@, process_views(processes@)),
{
    let mut hits: Vec<String> = Vec::new();
    let mut i: usize = 0;
    while i < processes.len()
        invariant
            i <= processes.len(),
            views(hits@) == regex_hits(pattern@, process_views(processes@).take(i as int)),
        decreases processes.len() - i,
    {
        proof {
            let next = process_views(processes@).take(i as int + 1);
            assert(next.drop_last() =~= process_views(processes@).take(i as int));
        }
        if search_says_match(&regex_probe(pattern, processes[i].title.as_str())) {
            hits.push(processes[i].title.clone());
        }
        i += 1;
    }
    proof {
        assert(process_views(processes@).take(i as int) =~= process_views(processes@));
    }
    hits
}

fn take_list(store: &mut LachesStore, is_whitelist: bool) -> (r: Option<Vec<String>>)
    ensures
        list_view(r) == old(store)@.process_list_options.list(is_whitelist),
        final(store)@ == (crate::store::StoreView {
            process_list_options: old(store)@.process_list_options.with_list(is_whitelist, None),
            ..old(store)@
        }),
{
    if is_whitelist {
        store.process_list_options.whitelist.take()
    } else {
        store.process_list_options.blacklist.take()
    }
}

fn put_list(store: &mut LachesStore, is_whitelist: bool, list: Option<Vec<String>>)
    ensures
        final(store)@ == (crate::store::StoreView {
            process_list_options: old(store)@.process_list_options.with_list(
                is_whitelist,
                list_view(list),
            ),
            ..old(store)@
        }),
{
    if is_whitelist {
        store.process_list_options.whitelist = list;
    } else {
        store.process_list_options.blacklist = list;
    }
}

/// The store with its whitelist or blacklist replaced by `list`.
pub open spec fn store_with_list(
    store: crate::store::StoreView,
    is_whitelist: bool,
    list: Option<Seq<Seq<char>>>,
) -> crate::store::StoreView {
    crate::store::StoreView {
        process_list_options: store.process_list_options.with_list(is_whitelist, list),
        ..store
    }
}

/// What adding `pattern` to a list does, in the model: the outcome and the
/// list afterwards.
pub open spec fn add_result(
    list: Option<Seq<Seq<char>>>,
    pattern: Seq<char>,
    is_regex: bool,
    confirmed: bool,
) -> (AddOutcome, Option<Seq<Seq<char>>>) {
    if is_regex && !confirmed {
        (AddOutcome::Aborted, list)
    } else {
        let current = match list {
            Some(l) => l,
            None => Seq::<Seq<char>>::empty(),
        };
        if current.contains(pattern) {
            (AddOutcome::AlreadyPresent, Some(current))
        } else {
            (AddOutcome::Added, Some(current.push(pattern)))
        }
    }
}

/// Adds `pattern` to the whitelist or the blacklist.
///
/// A pattern marked as a regular expression must compile, else the addition
/// fails and nothing changes. It is added only when the user has confirmed
/// it, having seen what it matches; a plain pattern needs no confirmation. A
/// pattern that the list holds already is not added again.
pub fn add_to_list(
    store: &mut LachesStore,
    pattern: &str,
    is_regex: bool,
    is_whitelist: bool,
    confirmed: bool,
) -> (r: Result<AddOutcome, CommandError>)
    ensures
        is_regex && regex_error(pattern@) is Some ==> final(store)@ == old(store)@ && (r matches Err(
            CommandError::InvalidRegex { detail },
        ) && regex_error(pattern@) == Some(detail@)),
        !(is_regex && regex_error(pattern@) is Some) ==> r == Ok::<AddOutcome, CommandError>(
            add_result(
                old(store)@.process_list_options.list(is_whitelist),
                pattern@,
                is_regex,
                confirmed,
            ).0,
        ) && final(store)@ == store_with_list(
            old(store)@,
            is_whitelist,
            add_result(
                old(store)@.process_list_options.list(is_whitelist),
                pattern@,
                is_regex,
                confirmed,
            ).1,
        ),
{
    if is_regex {
        match pattern_error(pattern) {
            Some(detail) => {
                return Err(CommandError::InvalidRegex { detail });
            },
            None => {},
        }
        if !confirmed {
            return Ok(AddOutcome::Aborted);
        }
    }
    let mut list = match take_list(store, is_whitelist) {
        Some(l) => l,
        None => {
            let l: Vec<String> = Vec::new();
            assert(views(l@) =~= Seq::<Seq<char>>::empty());
            l
        },
    };
    let ghost current = views(list@);
    let found = position_of(&list, pattern);
    proof {
        lemma_first_index_of(current, pattern@);
    }
    let outcome = if found.is_some() {
        AddOutcome::AlreadyPresent
    } else {
        list.push(String::from_str(pattern));
        proof {
            assert(views(list@) =~= current.push(pattern@));
        }
        AddOutcome::Added
    };
    put_list(store, is_whitelist, Some(list));
    Ok(outcome)
}

/// Removes `pattern` from the whitelist or the blacklist.
///
/// A list that is absent is reported as empty, a pattern that the list does
/// not hold as not found; neither changes the store. Otherwise the first
/// occurrence of the pattern leaves the list, and a list that loses its last
/// pattern becomes absent.
pub fn remove_from_list(store: &mut LachesStore, pattern: &str, is_whitelist: bool) -> (r: Result<
    (),
    CommandError,
>)
    ensures
        match old(store)@.process_list_options.list(is_whitelist) {
            None => final(store)@ == old(store)@ && (r matches Err(
                CommandError::ListEmpty { whitelist },
            ) && whitelist == is_whitelist),
            Some(list) => match first_index_of(list, pattern@) {
                None => final(store)@ == old(store)@ && (r matches Err(
                    CommandError::PatternNotFound { pattern: missing, whitelist },
                ) && missing@ == pattern@ && whitelist == is_whitelist),
                Some(position) => r is Ok && final(store)@ == store_with_list(
                    old(store)@,
                    is_whitelist,
                    list_without(list, position),
                ),
            },
        },
        r is Ok && old(store)@.process_list_options.list(is_whitelist).unwrap().len() == 1
            ==> final(store)@.process_list_options.list(is_whitelist) is None,
{
    match take_list(store, is_whitelist) {
        None => {
            put_list(store, is_whitelist, None);
            Err(CommandError::ListEmpty { whitelist: is_whitelist })
        },
        Some(mut list) => {
            let ghost current = views(list@);
            proof {
                lemma_first_index_of(current, pattern@);
            }
            match position_of(&list, pattern) {
                None => {
                    put_list(store, is_whitelist, Some(list));
                    Err(
                        CommandError::PatternNotFound {
                            pattern: String::from_str(pattern),
                            whitelist: is_whitelist,
                        },
                    )
                },
                Some(position) => {
                    list.remove(position);
                    proof {
                        assert(views(list@) =~= current.remove(position as int));
                    }
                    if list.len() == 0 {
                        put_list(store, is_whitelist, None);
                    } else {
                        put_list(store, is_whitelist, Some(list));
                    }
                    Ok(())
                },
            }
        },
    }
}

/// The number of patterns that clearing the list would drop: what the user
/// is asked to confirm. Zero where the list is absent.
pub fn pending_clear_count(store: &LachesStore, is_whitelist: bool) -> (r: usize)
    ensures
        r == match store@.process_list_options.list(is_whitelist) {
            Some(list) => list.len(),
            None => 0,
        },
{
    let list = if is_whitelist {
        &store.process_list_options.whitelist
    } else {
        &store.process_list_options.blacklist
    };
    match list {
        Some(patterns) => patterns.len(),
        None => 0,
    }
}

/// Clears the whitelist or the blacklist once the user has confirmed: the
/// list becomes absent. A list that is absent or empty is left as it is, and
/// so is every list when the user declines.
pub fn clear_list(store: &mut LachesStore, is_whitelist: bool, confirmed: bool) -> (r: ClearOutcome)
    ensures
        r == clear_result(old(store)@.process_list_options.list(is_whitelist), confirmed),
        final(store)@ == if r is Cleared {
            store_with_list(old(store)@, is_whitelist, None)
        } else {
            old(store)@
        },
{
    let count = pending_clear_count(store, is_whitelist);
    if count == 0 {
        ClearOutcome::AlreadyEmpty
    } else if confirmed {
        put_list(store, is_whitelist, None);
        ClearOutcome::Cleared(count)
    } else {
        ClearOutcome::Aborted
    }
}

/// Whether `lines` list the patterns of `list`, in order, each with the mark
/// that shows it as a regular expression. An absent list has no lines.
pub open spec fn lines_show(lines: Seq<PatternEntry>, list: Option<Seq<Seq<char>>>) -> bool {
    match list {
        Some(patterns) => lines.len() == patterns.len() && forall|i: int|
            0 <= i < patterns.len() ==> (#[trigger] lines[i]).pattern@ == patterns[i]
                && lines[i].likely_regex == likely_regex(patterns[i]),
        None => lines.len() == 0,
    }
}

/// How the clearing of `list` ends, in the model.
pub open spec fn clear_result(list: Option<Seq<Seq<char>>>, confirmed: bool) -> ClearOutcome {
    match list {
        Some(patterns) if patterns.len() > 0 => if confirmed {
            ClearOutcome::Cleared(patterns.len() as usize)
        } else {
            ClearOutcome::Aborted
        },
        _ => ClearOutcome::AlreadyEmpty,
    }
}

/// The patterns of the whitelist or the blacklist, in order, each with the
/// mark that shows it as a regular expression. An absent list has no lines.
pub fn list_patterns(store: &LachesStore, is_whitelist: bool) -> (r: Vec<PatternEntry>)
    ensures
        lines_show(r@, store@.process_list_options.list(is_whitelist)),
{
    let list = if is_whitelist {
        &store.process_list_options.whitelist
    } else {
        &store.process_list_options.blacklist
    };
    let mut lines: Vec<PatternEntry> = Vec::new();
    match list {
        Some(patterns) => {
            let mut i: usize = 0;
            while i < patterns.len()
                invariant
                    i <= patterns.len(),
                    lines@.len() == i,
                    forall|k: int|
                        0 <= k < i ==> (#[trigger] lines@[k]).pattern@ == patterns@[k]@
                            && lines@[k].likely_regex == likely_regex(patterns@[k]@),
                decreases patterns.len() - i,
            {
                let pattern = patterns[i].clone();
                let mark = is_likely_regex(pattern.as_str());
                lines.push(PatternEntry { pattern, likely_regex: mark });
                i += 1;
            }
        },
        None => {},
    }
    lines
}

/// The list after a list command, in the model.
pub open spec fn list_after(
    list: Option<Seq<Seq<char>>>,
    action: FilterListAction,
    confirmed: bool,
) -> Option<Seq<Seq<char>>> {
    match action {
        FilterListAction::Add { process, regex } => if regex && regex_error(process@) is Some {
            list
        } else {
            add_result(list, process@, regex, confirmed).1
        },
        FilterListAction::Remove { process } => match list {
            None => list,
            Some(patterns) => match first_index_of(patterns, process@) {
                None => list,
                Some(position) => list_without(patterns, position),
            },
        },
        FilterListAction::List => list,
        FilterListAction::Clear => match list {
            Some(patterns) if patterns.len() > 0 && confirmed => None,
            _ => list,
        },
    }
}

/// Whether a list command fails: an addition of a regular expression that
/// does not compile, or a removal of a pattern that the list does not hold.
pub open spec fn list_command_fails(list: Option<Seq<Seq<char>>>, action: FilterListAction) -> bool {
    match action {
        FilterListAction::Add { process, regex } => regex && regex_error(process@) is Some,
        FilterListAction::Remove { process } => match list {
            None => true,
            Some(patterns) => first_index_of(patterns, process@) is None,
        },
        FilterListAction::List => false,
        FilterListAction::Clear => false,
    }
}

/// The message with which a list command fails, in the model.
pub open spec fn list_failure(
    list: Option<Seq<Seq<char>>>,
    action: FilterListAction,
    is_whitelist: bool,
) -> Seq<char> {
    match action {
        FilterListAction::Add { process, regex } => "error: invalid regex pattern: "@ + (
        match regex_error(process@) {
            Some(detail) => detail,
            None => Seq::<char>::empty(),
        }),
        FilterListAction::Remove { process } => match list {
            None => "error: "@ + list_name_spec(is_whitelist) + " is empty"@,
            Some(_) => "error: '"@ + process@ + "' not found in "@ + list_name_spec(is_whitelist),
        },
        _ => Seq::<char>::empty(),
    }
}

/// Whether `report` is what a list command that succeeds reports, in the
/// model.
pub open spec fn reports_on(
    report: ListReport,
    list: Option<Seq<Seq<char>>>,
    action: FilterListAction,
    confirmed: bool,
) -> bool {
    match action {
        FilterListAction::Add { process, regex } => report == ListReport::Added(
            add_result(list, process@, regex, confirmed).0,
        ),
        FilterListAction::Remove { process } => report is Removed,
        FilterListAction::List => report matches ListReport::Listed(lines) && lines_show(
            lines@,
            list,
        ),
        FilterListAction::Clear => report == ListReport::Cleared(clear_result(list, confirmed)),
    }
}

/// Carries out a list command on the list named by `is_whitelist`.
/// `confirmed` is the user's answer where the command asks for one.
pub fn handle_list(
    store: &mut LachesStore,
    action: &FilterListAction,
    is_whitelist: bool,
    confirmed: bool,
) -> (r: Result<ListReport, CommandError>)
    ensures
        r is Err == list_command_fails(old(store)@.process_list_options.list(is_whitelist), *action),
        match r {
            Ok(report) => reports_on(
                report,
                old(store)@.process_list_options.list(is_whitelist),
                *action,
                confirmed,
            ),
            Err(e) => e.message() == list_failure(
                old(store)@.process_list_options.list(is_whitelist),
                *action,
                is_whitelist,
            ),
        },
        final(store)@ == store_with_list(
            old(store)@,
            is_whitelist,
            list_after(old(store)@.process_list_options.list(is_whitelist), *action, confirmed),
        ),
{
    match action {
        FilterListAction::Add { process, regex } => {
            match add_to_list(store, process.as_str(), *regex, is_whitelist, confirmed) {
                Ok(outcome) => Ok(ListReport::Added(outcome)),
                Err(e) => Err(e),
            }
        },
        FilterListAction::Remove { process } => {
            match remove_from_list(store, process.as_str(), is_whitelist) {
                Ok(()) => Ok(ListReport::Removed),
                Err(e) => Err(e),
            }
        },
        FilterListAction::List => Ok(ListReport::Listed(list_patterns(store, is_whitelist))),
        FilterListAction::Clear => Ok(ListReport::Cleared(clear_list(store, is_whitelist, confirmed))),
    }
}

/// Carries out a whitelist command. `confirmed` is the user's answer where
/// the command asks for one.
pub fn handle_whitelist(store: &mut LachesStore, action: &FilterListAction, confirmed: bool) -> (r:
    Result<ListReport, CommandError>)
    ensures
        r is Err == list_command_fails(old(store)@.process_list_options.whitelist, *action),
        match r {
            Ok(report) => reports_on(
                report,
                old(store)@.process_list_options.whitelist,
                *action,
                confirmed,
            ),
            Err(e) => e.message() == list_failure(
                old(store)@.process_list_options.whitelist,
                *action,
                true,
            ),
        },
        final(store)@ == store_with_list(
            old(store)@,
            true,
            list_after(old(store)@.process_list_options.whitelist, *action, confirmed),
        ),
{
    handle_list(store, action, true, confirmed)
}

/// Carries out a blacklist command. `confirmed` is the user's answer where
/// the command asks for one.
pub fn handle_blacklist(store: &mut LachesStore, action: &FilterListAction, confirmed: bool) -> (r:
    Result<ListReport, CommandError>)
    ensures
        r is Err == list_command_fails(old(store)@.process_list_options.blacklist, *action),
        match r {
            Ok(report) => reports_on(
                report,
                old(store)@.process_list_options.blacklist,
                *action,
                confirmed,
            ),
            Err(e) => e.message() == list_failure(
                old(store)@.process_list_options.blacklist,
                *action,
                false,
            ),
        },
        final(store)@ == store_with_list(
            old(store)@,
            false,
            list_after(old(store)@.process_list_options.blacklist, *action, confirmed),
        ),
{
    handle_list(store, action, false, confirmed)
}

} // verus!
