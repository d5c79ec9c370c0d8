//! Tagging: the user's labels on a process.
//!
//! The tags of a process are an ordered set: a tag is added at the end
//! unless the process carries it already, and removed where it stands.

use crate::error::CommandError;
use crate::process::{find_process, index_of_title, process_views, ProcessView};
use crate::store::{machine_list, LachesStore};
use crate::text::{
    clone_strings, comma_tokens, first_index_of, lemma_first_index_of, no_duplicates, position_of,
    split_tokens, text_view, views,
};
use vstd::prelude::*;
use vstd::string::*;

verus! {

/// `tags` after each of `new` was added in turn: a tag goes to the end unless
/// it is there already.
pub open spec fn with_tags(tags: Seq<Seq<char>>, new: Seq<Seq<char>>) -> Seq<Seq<char>>
    decreases new.len(),
{
    if new.len() == 0 {
        tags
    } else {
        let before = with_tags(tags, new.drop_last());
        if before.contains(new.last()) {
            before
        } else {
            before.push(new.last())
        }
    }
}

/// `tags` after each of `gone` was removed in turn: a tag leaves from where
/// it first stands; one that is not there is passed over.
pub open spec fn without_tags(tags: Seq<Seq<char>>, gone: Seq<Seq<char>>) -> Seq<Seq<char>>
    decreases gone.len(),
{
    if gone.len() == 0 {
        tags
    } else {
        let before = without_tags(tags, gone.drop_last());
        match first_index_of(before, gone.last()) {
            Some(position) => before.remove(position),
            None => before,
        }
    }
}

/// The tags that leave `tags` when each of `gone` is removed in turn, in
/// the order in which they leave.
pub open spec fn removed_tags(tags: Seq<Seq<char>>, gone: Seq<Seq<char>>) -> Seq<Seq<char>>
    decreases gone.len(),
{
    if gone.len() == 0 {
        gone
    } else if without_tags(tags, gone.drop_last()).contains(gone.last()) {
        removed_tags(tags, gone.drop_last()).push(gone.last())
    } else {
        removed_tags(tags, gone.drop_last())
    }
}

/// The tokens of a comma-separated list that may not have been given.
pub open spec fn tokens_or_none(list: Option<Seq<char>>) -> Seq<Seq<char>> {
    match list {
        Some(text) => comma_tokens(text),
        None => Seq::<Seq<char>>::empty(),
    }
}

/// The tags of a process after a tag command: unchanged by a listing, else
/// the additions are made first and the removals after.
pub open spec fn tags_after(
    tags: Seq<Seq<char>>,
    add: Option<Seq<char>>,
    remove: Option<Seq<char>>,
    list_tags: bool,
) -> Seq<Seq<char>> {
    if list_tags {
        tags
    } else {
        without_tags(with_tags(tags, tokens_or_none(add)), tokens_or_none(remove))
    }
}

/// Adding tags never makes a tag occur twice, keeps every tag that was
/// there, and afterwards every tag added is there.
pub proof fn lemma_with_tags(tags: Seq<Seq<char>>, new: Seq<Seq<char>>)
    ensures
        no_duplicates(tags) ==> no_duplicates(with_tags(tags, new)),
        forall|t: Seq<char>| tags.contains(t) ==> with_tags(tags, new).contains(t),
        forall|k: int| 0 <= k < new.len() ==> with_tags(tags, new).contains(#[trigger] new[k]),
        tags.len() <= with_tags(tags, new).len() <= tags.len() + new.len(),
    decreases new.len(),
{
    if new.len() > 0 {
        let shorter = new.drop_last();
        lemma_with_tags(tags, shorter);
        let before = with_tags(tags, shorter);
        let after = with_tags(tags, new);
        if !before.contains(new.last()) {
            assert(after[before.len() as int] == new.last());
            assert forall|t: Seq<char>| before.contains(t) implies after.contains(t) by {
                let i = choose|i: int| 0 <= i < before.len() && before[i] == t;
                assert(after[i] == t);
            }
            if no_duplicates(tags) {
                assert forall|i: int, j: int| 0 <= i < j < after.len() implies after[i]
                    != after[j] by {
                    if j == before.len() {
                        assert(before[i] == after[i]);
                    }
                }
            }
        }
        assert forall|k: int| 0 <= k < new.len() implies after.contains(#[trigger] new[k]) by {
            if k < shorter.len() {
                assert(shorter[k] == new[k]);
            }
        }
    }
}

/// Removing tags never makes a tag occur twice, and from a list without
/// duplicates every tag removed is gone.
pub proof fn lemma_without_tags(tags: Seq<Seq<char>>, gone: Seq<Seq<char>>)
    ensures
        no_duplicates(tags) ==> no_duplicates(without_tags(tags, gone)),
        no_duplicates(tags) ==> forall|k: int|
            0 <= k < gone.len() ==> !without_tags(tags, gone).contains(#[trigger] gone[k]),
        forall|t: Seq<char>| without_tags(tags, gone).contains(t) ==> tags.contains(t),
        without_tags(tags, gone).len() <= tags.len(),
    decreases gone.len(),
{
    if gone.len() > 0 {
        let shorter = gone.drop_last();
        lemma_without_tags(tags, shorter);
        let before = without_tags(tags, shorter);
        let after = without_tags(tags, gone);
        lemma_first_index_of(before, gone.last());
        match first_index_of(before, gone.last()) {
            Some(position) => {
                assert forall|t: Seq<char>| after.contains(t) implies before.contains(t) by {
                    let i = choose|i: int| 0 <= i < after.len() && after[i] == t;
                    if i < position {
                        assert(before[i] == t);
                    } else {
                        assert(before[i + 1] == t);
                    }
                }
                if no_duplicates(tags) {
                    assert forall|i: int, j: int| 0 <= i < j < after.len() implies after[i]
                        != after[j] by {
                        let i2 = if i < position {
                            i
                        } else {
                            i + 1
                        };
                        let j2 = if j < position {
                            j
                        } else {
                            j + 1
                        };
                        assert(after[i] == before[i2] && after[j] == before[j2]);
                    }
                    assert forall|k: int| 0 <= k < gone.len() implies !after.contains(
                        #[trigger] gone[k],
                    ) by {
                        if after.contains(gone[k]) {
                            let i = choose|i: int| 0 <= i < after.len() && after[i] == gone[k];
                            let i2 = if i < position {
                                i
                            } else {
                                i + 1
                            };
                            assert(before[i2] == gone[k]);
                            if k < shorter.len() {
                                assert(shorter[k] == gone[k]);
                                assert(before.contains(shorter[k]));
                            } else {
                                assert(before[position] == gone[k]);
                            }
                        }
                    }
                }
            },
            None => {
                if no_duplicates(tags) {
                    assert forall|k: int| 0 <= k < gone.len() implies !after.contains(
                        #[trigger] gone[k],
                    ) by {
                        if k < shorter.len() {
                            assert(shorter[k] == gone[k]);
                        }
                    }
                }
            },
        }
    }
}

/// Adds each of `new` to `tags` unless it is there already, and returns the
/// tags that were added, in order.
pub fn add_tags(tags: &mut Vec<String>, new: &Vec<String>) -> (added: Vec<String>)
    ensures
        views(final(tags)@) == with_tags(views(old(tags)@), views(new@)),
        views(final(tags)@) == views(old(tags)@) + views(added@),
{
    let ghost start = views(tags@);
    let ghost wanted = views(new@);
    let mut added: Vec<String> = Vec::new();
    let mut i: usize = 0;
    while i < new.len()
        invariant
            i <= new.len(),
            wanted == views(new@),
            views(tags@) == with_tags(start, wanted.take(i as int)),
            views(tags@) == start + views(added@),
        decreases new.len() - i,
    {
        proof {
            assert(wanted.take(i as int + 1).drop_last() =~= wanted.take(i as int));
            lemma_first_index_of(views(tags@), new@[i as int]@);
        }
        if position_of(tags, new[i].as_str()).is_none() {
            let ghost before = views(tags@);
            tags.push(new[i].clone());
            added.push(new[i].clone());
            proof {
                assert(views(tags@) =~= before.push(new@[i as int]@));
            }
        }
        i += 1;
    }
    proof {
        assert(wanted.take(i as int) =~= wanted);
    }
    added
}

/// Removes each of `gone` from `tags` where it is there, and returns the
/// tags that were removed, in order.
pub fn remove_tags(tags: &mut Vec<String>, gone: &Vec<String>) -> (removed: Vec<String>)
    ensures
        views(final(tags)@) == without_tags(views(old(tags)@), views(gone@)),
        views(removed@) == removed_tags(views(old(tags)@), views(gone@)),
{
    let ghost start = views(tags@);
    let ghost unwanted = views(gone@);
    let mut removed: Vec<String> = Vec::new();
    let mut i: usize = 0;
    while i < gone.len()
        invariant
            i <= gone.len(),
            unwanted == views(gone@),
            views(tags@) == without_tags(start, unwanted.take(i as int)),
            views(removed@) == removed_tags(start, unwanted.take(i as int)),
        decreases gone.len() - i,
    {
        proof {
            assert(unwanted.take(i as int + 1).drop_last() =~= unwanted.take(i as int));
            lemma_first_index_of(views(tags@), gone@[i as int]@);
        }
        match position_of(tags, gone[i].as_str()) {
            Some(position) => {
                let tag = tags.remove(position);
                removed.push(tag);
            },
            None => {},
        }
        i += 1;
    }
    proof {
        assert(unwanted.take(i as int) =~= unwanted);
    }
    removed
}

/// What a tag command did.
#[derive(Debug)]
pub enum TagReport {
    /// The tags of the process, for a listing.
    Listed(Vec<String>),
    /// The tags that were added and those that were removed.
    Changed { added: Vec<String>, removed: Vec<String> },
}

/// Whether `report` is what a tag command reports of a process with the
/// tags `tags`: the tags themselves for a listing, else the tags that were
/// added, those not yet there, and the tags that were removed, those there.
pub open spec fn reports_tags(
    report: TagReport,
    tags: Seq<Seq<char>>,
    add: Option<Seq<char>>,
    remove: Option<Seq<char>>,
    list_tags: bool,
) -> bool {
    match report {
        TagReport::Listed(listed) => list_tags && views(listed@) == tags,
        TagReport::Changed { added, removed } => !list_tags && tags + views(added@) == with_tags(
            tags,
            tokens_or_none(add),
        ) && views(removed@) == removed_tags(
            with_tags(tags, tokens_or_none(add)),
            tokens_or_none(remove),
        ),
    }
}

/// The process list of a machine after a tag command on the process at
/// `position`.
pub open spec fn list_with_tags(
    list: Seq<ProcessView>,
    position: int,
    tags: Seq<Seq<char>>,
) -> Seq<ProcessView> {
    list.update(position, ProcessView { tags, ..list[position] })
}

/// Carries out a tag command on the process titled `process_name` of
/// machine `machine_id`.
///
/// The process is found by its exact title; where there is none the command
/// fails. A listing hands the tags back and changes nothing. Otherwise the
/// comma-separated tags of `add_tags` are added, each unless the process
/// carries it already, and then those of `remove_tags` are removed, each
/// where the process carries it. A machine that the store does not know gets
/// an empty process list.
pub fn handle_tag_command(
    laches_store: &mut LachesStore,
    machine_id: &str,
    process_name: &str,
    add_tags: Option<&str>,
    remove_tags: Option<&str>,
    list_tags: bool,
) -> (r: Result<TagReport, CommandError>)
    ensures
        match index_of_title(
            machine_list(old(laches_store)@.machine_data, machine_id@),
            process_name@,
        ) {
            None => (r matches Err(CommandError::ProcessNotFound { name }) && name@
                == process_name@) && final(laches_store)@ == old(laches_store)@.with_machine(
                machine_id@,
                machine_list(old(laches_store)@.machine_data, machine_id@),
            ),
            Some(position) => r is Ok && final(laches_store)@ == old(laches_store)@.with_machine(
                machine_id@,
                list_with_tags(
                    machine_list(old(laches_store)@.machine_data, machine_id@),
                    position,
                    tags_after(
                        machine_list(
                            old(laches_store)@.machine_data,
                            machine_id@,
                        )[position].tags,
                        text_view(add_tags),
                        text_view(remove_tags),
                        list_tags,
                    ),
                ),
            ),
        },
        r matches Ok(report) ==> reports_tags(
            report,
            machine_list(old(laches_store)@.machine_data, machine_id@)[index_of_title(
                machine_list(old(laches_store)@.machine_data, machine_id@),
                process_name@,
            )->0].tags,
            text_view(add_tags),
            text_view(remove_tags),
            list_tags,
        ),
{
    let processes = laches_store.get_machine_processes_mut(machine_id);
    let ghost list = process_views(processes@);
    match find_process(processes, process_name) {
        None => Err(CommandError::ProcessNotFound { name: String::from_str(process_name) }),
        Some(position) => {
            let ghost before = processes@[position as int]@;
            let process = &mut processes[position];
            let report = if list_tags {
                TagReport::Listed(clone_strings(&process.tags))
            } else {
                let wanted = match add_tags {
                    Some(text) => split_tokens(text),
                    None => Vec::new(),
                };
                let unwanted = match remove_tags {
                    Some(text) => split_tokens(text),
                    None => Vec::new(),
                };
                proof {
                    assert(views(unwanted@) =~= tokens_or_none(text_view(remove_tags)));
                }
                let added = crate::tag::add_tags(&mut process.tags, &wanted);
                let removed = crate::tag::remove_tags(&mut process.tags, &unwanted);
                TagReport::Changed { added, removed }
            };
            proof {
                let tags = tags_after(
                    before.tags,
                    text_view(add_tags),
                    text_view(remove_tags),
                    list_tags,
                );
                assert(process_views(processes@) =~= list_with_tags(list, position as int, tags));
            }
            Ok(report)
        },
    }
}

} // verus!
