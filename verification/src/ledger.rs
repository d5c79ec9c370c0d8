//! The usage ledger of one process: for each calendar date on which the
//! process was seen, the seconds accumulated on that date.

use crate::text::{chars_lt, chars_of, first_index_of, lemma_first_index_of, lex_lt, str_eq};
use vstd::prelude::*;
use vstd::string::*;

verus! {

/// The mathematical model of a ledger: its entries, date and seconds, in the
/// order in which the dates were first recorded.
pub type Entries = Seq<(Seq<char>, u64)>;

/// The dates of `entries`, in order.
pub open spec fn dates_of(entries: Entries) -> Seq<Seq<char>> {
    Seq::new(entries.len(), |i: int| entries[i].0)
}

/// The sum of the seconds of all `entries`.
pub open spec fn total_of(entries: Entries) -> nat
    decreases entries.len(),
{
    if entries.len() == 0 {
        0
    } else {
        total_of(entries.drop_last()) + entries.last().1 as nat
    }
}

/// The seconds recorded under `date`, if the date has an entry.
pub open spec fn lookup(entries: Entries, date: Seq<char>) -> Option<u64> {
    match first_index_of(dates_of(entries), date) {
        Some(i) => Some(entries[i].1),
        None => None,
    }
}

/// The seconds recorded under `date`; zero where the date has no entry.
pub open spec fn usage_of(entries: Entries, date: Seq<char>) -> nat {
    match lookup(entries, date) {
        Some(seconds) => seconds as nat,
        None => 0,
    }
}

/// No date has two entries.
pub open spec fn distinct_dates(entries: Entries) -> bool {
    forall|i: int, j: int| 0 <= i < j < entries.len() ==> entries[i].0 != entries[j].0
}

/// What a ledger holds at any time: one entry per date, and a total that fits
/// in 64 bits.
pub open spec fn well_formed(entries: Entries) -> bool {
    distinct_dates(entries) && total_of(entries) <= u64::MAX
}

/// `entries` with `seconds` recorded under `date`: the entry of that date is
/// overwritten in place, or a new entry is added at the end.
pub open spec fn with_entry(entries: Entries, date: Seq<char>, seconds: u64) -> Entries {
    match first_index_of(dates_of(entries), date) {
        Some(i) => entries.update(i, (date, seconds)),
        None => entries.push((date, seconds)),
    }
}

/// The entries whose date is not before `cutoff`, in order.
pub open spec fn kept_from(entries: Entries, cutoff: Seq<char>) -> Entries
    decreases entries.len(),
{
    if entries.len() == 0 {
        entries
    } else if lex_lt(entries.last().0, cutoff) {
        kept_from(entries.drop_last(), cutoff)
    } else {
        kept_from(entries.drop_last(), cutoff).push(entries.last())
    }
}

/// The total of a ledger is the total of a prefix plus that of the rest, so
/// it grows with the prefix.
pub proof fn lemma_total_take(entries: Entries, k: int)
    requires
        0 <= k <= entries.len(),
    ensures
        total_of(entries.take(k)) <= total_of(entries),
        k < entries.len() ==> total_of(entries.take(k + 1)) == total_of(entries.take(k))
            + entries[k].1,
    decreases entries.len() - k,
{
    if k < entries.len() {
        assert(entries.take(k + 1).drop_last() =~= entries.take(k));
        lemma_total_take(entries, k + 1);
    } else {
        assert(entries.take(k) =~= entries);
    }
}

/// Overwriting one entry changes the total by the difference of the seconds.
pub proof fn lemma_total_update(entries: Entries, i: int, entry: (Seq<char>, u64))
    requires
        0 <= i < entries.len(),
    ensures
        total_of(entries.update(i, entry)) == total_of(entries) - entries[i].1 + entry.1,
    decreases entries.len(),
{
    let updated = entries.update(i, entry);
    if i == entries.len() - 1 {
        assert(updated.drop_last() =~= entries.drop_last());
    } else {
        assert(updated.drop_last() =~= entries.drop_last().update(i, entry));
        lemma_total_update(entries.drop_last(), i, entry);
    }
}

/// What is kept from a cutoff is part of the ledger: it is no longer, its
/// total no larger, each kept date is a date of the ledger, and a ledger with
/// one entry per date keeps that property.
pub proof fn lemma_kept_from(entries: Entries, cutoff: Seq<char>)
    ensures
        kept_from(entries, cutoff).len() <= entries.len(),
        total_of(kept_from(entries, cutoff)) <= total_of(entries),
        forall|k: int|
            0 <= k < kept_from(entries, cutoff).len() ==> dates_of(entries).contains(
                #[trigger] kept_from(entries, cutoff)[k].0,
            ) && !lex_lt(kept_from(entries, cutoff)[k].0, cutoff),
        distinct_dates(entries) ==> distinct_dates(kept_from(entries, cutoff)),
    decreases entries.len(),
{
    if entries.len() > 0 {
        let shorter = entries.drop_last();
        lemma_kept_from(shorter, cutoff);
        let kept = kept_from(entries, cutoff);
        let kept_shorter = kept_from(shorter, cutoff);
        if !lex_lt(entries.last().0, cutoff) {
            assert(kept.drop_last() =~= kept_shorter);
        }
        assert forall|k: int| 0 <= k < kept.len() implies dates_of(entries).contains(
            #[trigger] kept[k].0,
        ) && !lex_lt(kept[k].0, cutoff) by {
            if k < kept_shorter.len() {
                assert(kept[k] == kept_shorter[k]);
                let j = choose|j: int|
                    0 <= j < dates_of(shorter).len() && dates_of(shorter)[j] == kept_shorter[k].0;
                assert(dates_of(entries)[j] == kept[k].0);
            } else {
                assert(kept[k] == entries.last());
                assert(dates_of(entries)[entries.len() - 1] == kept[k].0);
            }
        }
        if distinct_dates(entries) {
            assert(distinct_dates(shorter));
            assert forall|i: int, j: int| 0 <= i < j < kept.len() implies kept[i].0 != kept[j].0 by {
                if j >= kept_shorter.len() {
                    assert(kept[j] == entries.last());
                    assert(kept[i] == kept_shorter[i]);
                    let m = choose|m: int|
                        0 <= m < dates_of(shorter).len() && dates_of(shorter)[m]
                            == kept_shorter[i].0;
                    assert(entries[m].0 == kept[i].0);
                }
            }
        }
    }
}

/// After `with_entry` the date holds the new seconds, every other date holds
/// what it held, the total moves by the difference, and a ledger with one
/// entry per date keeps that property.
pub proof fn lemma_with_entry(entries: Entries, date: Seq<char>, seconds: u64)
    ensures
        lookup(with_entry(entries, date, seconds), date) == Some(seconds),
        forall|other: Seq<char>|
            other != date ==> lookup(with_entry(entries, date, seconds), other) == lookup(
                entries,
                other,
            ),
        total_of(with_entry(entries, date, seconds)) == total_of(entries) - usage_of(entries, date)
            + seconds,
        distinct_dates(entries) ==> distinct_dates(with_entry(entries, date, seconds)),
        with_entry(entries, date, seconds).len() == if lookup(entries, date) is Some {
            entries.len()
        } else {
            entries.len() + 1
        },
{
    let after = with_entry(entries, date, seconds);
    lemma_first_index_of(dates_of(entries), date);
    lemma_first_index_of(dates_of(after), date);
    match first_index_of(dates_of(entries), date) {
        Some(i) => {
            lemma_total_update(entries, i, (date, seconds));
            assert(dates_of(after) =~= dates_of(entries));
            assert forall|other: Seq<char>| other != date implies lookup(after, other) == lookup(
                entries,
                other,
            ) by {
                lemma_first_index_of(dates_of(entries), other);
            }
        },
        None => {
            assert(after.drop_last() =~= entries);
            assert(dates_of(after) =~= dates_of(entries).push(date));
            assert(dates_of(after)[entries.len() as int] == date);
            assert(dates_of(after).drop_last() =~= dates_of(entries));
            assert forall|other: Seq<char>| other != date implies lookup(after, other) == lookup(
                entries,
                other,
            ) by {
                lemma_first_index_of(dates_of(entries), other);
            }
            if distinct_dates(entries) {
                assert forall|i: int, j: int| 0 <= i < j < after.len() implies after[i].0
                    != after[j].0 by {
                    if j == entries.len() {
                        assert(dates_of(entries)[i] == entries[i].0);
                    }
                }
            }
        },
    }
}

/// The model of a list of dates with their seconds.
pub open spec fn pairs_view(pairs: Seq<(String, u64)>) -> Entries {
    Seq::new(pairs.len(), |i: int| (pairs[i].0@, pairs[i].1))
}

/// The usage ledger of one process.
#[derive(Debug)]
pub struct Ledger {
    entries: Vec<(String, u64)>,
}

impl View for Ledger {
    type V = Entries;

    closed spec fn view(&self) -> Entries {
        pairs_view(self.entries@)
    }
}

impl Ledger {
    #[verifier::type_invariant]
    spec fn inv(&self) -> bool {
        well_formed(self@)
    }

    /// A ledger without entries.
    pub fn new() -> (r: Ledger)
        ensures
            r@ == Seq::<(Seq<char>, u64)>::empty(),
    {
        let r = Ledger { entries: Vec::new() };
        r
    }

    /// The number of dates with an entry. Every ledger is well formed.
    pub fn len(&self) -> (n: usize)
        ensures
            n == self@.len(),
            well_formed(self@),
    {
        proof {
            use_type_invariant(self);
        }
        self.entries.len()
    }

    /// Whether no date has an entry.
    pub fn is_empty(&self) -> (r: bool)
        ensures
            r == (self@.len() == 0),
    {
        self.entries.len() == 0
    }

    fn find(&self, date: &str) -> (r: Option<usize>)
        ensures
            match r {
                Some(i) => first_index_of(dates_of(self@), date@) == Some(i as int) && i
                    < self@.len(),
                None => first_index_of(dates_of(self@), date@) is None,
            },
    {
        let mut i: usize = 0;
        while i < self.entries.len()
            invariant
                i <= self.entries.len(),
                first_index_of(dates_of(self@).take(i as int), date@) is None,
            decreases self.entries.len() - i,
        {
            proof {
                let next = dates_of(self@).take(i as int + 1);
                assert(next.drop_last() =~= dates_of(self@).take(i as int));
            }
            if str_eq(self.entries[i].0.as_str(), date) {
                proof {
                    crate::text::lemma_first_index_found(dates_of(self@), date@, i as int + 1);
                }
                return Some(i);
            }
            i += 1;
        }
        proof {
            assert(dates_of(self@).take(self.entries.len() as int) =~= dates_of(self@));
        }
        None
    }

    /// The seconds recorded under `date`, if the date has an entry.
    pub fn get(&self, date: &str) -> (r: Option<u64>)
        ensures
            r == lookup(self@, date@),
    {
        match self.find(date) {
            Some(i) => Some(self.entries[i].1),
            None => None,
        }
    }

    /// Whether `date` has an entry.
    pub fn contains_key(&self, date: &str) -> (r: bool)
        ensures
            r == lookup(self@, date@).is_some(),
    {
        self.find(date).is_some()
    }

    /// The seconds recorded under `date`; zero where the date has no entry.
    pub fn usage_on(&self, date: &str) -> (r: u64)
        ensures
            r == usage_of(self@, date@),
    {
        match self.get(date) {
            Some(seconds) => seconds,
            None => 0,
        }
    }

    /// The date and the seconds of the entry at `index`, in ledger order.
    pub fn entry(&self, index: usize) -> (r: (&str, u64))
        requires
            index < self@.len(),
        ensures
            r.0@ == self@[index as int].0,
            r.1 == self@[index as int].1,
    {
        (self.entries[index].0.as_str(), self.entries[index].1)
    }

    /// The entries of the ledger, in order: what a file holds of it.
    pub fn entries(&self) -> (r: Vec<(String, u64)>)
        ensures
            pairs_view(r@) == self@,
            well_formed(self@),
    {
        proof {
            use_type_invariant(self);
        }
        let mut copy: Vec<(String, u64)> = Vec::new();
        let mut i: usize = 0;
        while i < self.entries.len()
            invariant
                i <= self.entries.len(),
                copy@.len() == i,
                forall|k: int|
                    0 <= k < i ==> copy@[k].0@ == self.entries@[k].0@ && copy@[k].1
                        == self.entries@[k].1,
            decreases self.entries.len() - i,
        {
            copy.push((self.entries[i].0.clone(), self.entries[i].1));
            i += 1;
        }
        copy
    }

    /// The ledger with the entries `pairs`, in order, if they make a ledger:
    /// no date twice, and a total within 64 bits. A ledger that was taken
    /// apart by `entries` comes back as it was.
    pub fn from_entries(pairs: Vec<(String, u64)>) -> (r: Option<Ledger>)
        ensures
            match r {
                Some(ledger) => ledger@ == pairs_view(pairs@),
                None => true,
            },
            r is Some == well_formed(pairs_view(pairs@)),
    {
        let ghost all = pairs_view(pairs@);
        let mut sum: u64 = 0;
        let mut i: usize = 0;
        while i < pairs.len()
            invariant
                i <= pairs.len(),
                all == pairs_view(pairs@),
                sum == total_of(all.take(i as int)),
                forall|a: int, b: int| 0 <= a < b < i ==> all[a].0 != all[b].0,
            decreases pairs.len() - i,
        {
            let mut j: usize = 0;
            while j < i
                invariant
                    j <= i < pairs.len(),
                    all == pairs_view(pairs@),
                    forall|a: int| 0 <= a < j ==> all[a].0 != all[i as int].0,
                decreases i - j,
            {
                if str_eq(pairs[j].0.as_str(), pairs[i].0.as_str()) {
                    proof {
                        assert(all[j as int].0 == all[i as int].0);
                    }
                    return None;
                }
                j += 1;
            }
            proof {
                lemma_total_take(all, i as int);
                lemma_total_take(all, i as int + 1);
            }
            match sum.checked_add(pairs[i].1) {
                Some(next) => {
                    sum = next;
                },
                None => {
                    return None;
                },
            }
            i += 1;
        }
        proof {
            assert(all.take(i as int) =~= all);
        }
        Some(Ledger { entries: pairs })
    }

    /// The sum of the seconds of all dates.
    pub fn total(&self) -> (r: u64)
        ensures
            r == total_of(self@),
    {
        proof {
            use_type_invariant(self);
        }
        let mut sum: u64 = 0;
        let mut i: usize = 0;
        while i < self.entries.len()
            invariant
                i <= self.entries.len(),
                total_of(self@) <= u64::MAX,
                sum == total_of(self@.take(i as int)),
            decreases self.entries.len() - i,
        {
            proof {
                lemma_total_take(self@, i as int);
                lemma_total_take(self@, i as int + 1);
            }
            sum = sum + self.entries[i].1;
            i += 1;
        }
        proof {
            assert(self@.take(i as int) =~= self@);
        }
        sum
    }

    /// Whether `seconds` can be recorded under `date` in place of what the
    /// date holds, with the total still within 64 bits.
    pub fn can_hold(&self, date: &str, seconds: u64) -> (r: bool)
        ensures
            r == (total_of(self@) - usage_of(self@, date@) + seconds <= u64::MAX),
    {
        proof {
            lemma_with_entry(self@, date@, 0);
        }
        let rest = self.total() - self.usage_on(date);
        seconds <= u64::MAX - rest
    }

    /// Whether `seconds` more can be recorded with the total still within 64
    /// bits.
    pub fn can_add(&self, seconds: u64) -> (r: bool)
        ensures
            r == (total_of(self@) + seconds <= u64::MAX),
    {
        seconds <= u64::MAX - self.total()
    }

    /// Records `seconds` under `date`, in place of what the date held, and
    /// returns what it held. The total must stay within 64 bits, which
    /// `can_hold` tells.
    pub fn insert(&mut self, date: String, seconds: u64) -> (previous: Option<u64>)
        requires
            total_of(old(self)@) - usage_of(old(self)@, date@) + seconds <= u64::MAX,
        ensures
            final(self)@ == with_entry(old(self)@, date@, seconds),
            previous == lookup(old(self)@, date@),
    {
        proof {
            use_type_invariant(&*self);
            lemma_with_entry(self@, date@, seconds);
        }
        let ghost before = self@;
        match self.find(date.as_str()) {
            Some(i) => {
                let previous = self.entries[i].1;
                proof {
                    let after = self.entries@.update(i as int, (date, seconds));
                    assert(pairs_view(after) =~= with_entry(
                        before,
                        date@,
                        seconds,
                    ));
                }
                let mut list: Vec<(String, u64)> = Vec::new();
                std::mem::swap(&mut list, &mut self.entries);
                list.set(i, (date, seconds));
                *self = Ledger { entries: list };
                Some(previous)
            },
            None => {
                proof {
                    let after = self.entries@.push((date, seconds));
                    assert(pairs_view(after) =~= with_entry(
                        before,
                        date@,
                        seconds,
                    ));
                }
                let mut list: Vec<(String, u64)> = Vec::new();
                std::mem::swap(&mut list, &mut self.entries);
                list.push((date, seconds));
                *self = Ledger { entries: list };
                None
            },
        }
    }

    /// Adds `seconds` to what `date` holds, starting from zero where the date
    /// has no entry yet. The total must stay within 64 bits, which `can_add`
    /// tells.
    pub fn add(&mut self, date: &str, seconds: u64)
        requires
            total_of(old(self)@) + seconds <= u64::MAX,
        ensures
            final(self)@ == with_entry(
                old(self)@,
                date@,
                (usage_of(old(self)@, date@) + seconds) as u64,
            ),
            usage_of(old(self)@, date@) + seconds <= u64::MAX,
    {
        proof {
            lemma_with_entry(self@, date@, 0);
        }
        let current = self.usage_on(date);
        self.insert(String::from_str(date), current + seconds);
    }

    /// Drops every entry.
    pub fn clear(&mut self)
        ensures
            final(self)@ == Seq::<(Seq<char>, u64)>::empty(),
    {
        *self = Ledger::new();
    }

    /// Drops the entries whose date is before `cutoff` and returns how many
    /// were dropped.
    pub fn retain_from(&mut self, cutoff: &str) -> (dropped: usize)
        ensures
            final(self)@ == kept_from(old(self)@, cutoff@),
            dropped == old(self)@.len() - final(self)@.len(),
    {
        let kept = self.kept_from(cutoff);
        let dropped = self.len() - kept.len();
        *self = kept;
        dropped
    }

    /// A ledger of the entries whose date is not before `cutoff`.
    pub fn kept_from(&self, cutoff: &str) -> (r: Ledger)
        ensures
            r@ == kept_from(self@, cutoff@),
            r@.len() <= self@.len(),
    {
        proof {
            use_type_invariant(self);
            lemma_kept_from(self@, cutoff@);
        }
        let limit = chars_of(cutoff);
        let mut kept: Vec<(String, u64)> = Vec::new();
        let mut i: usize = 0;
        while i < self.entries.len()
            invariant
                i <= self.entries.len(),
                limit@ == cutoff@,
                pairs_view(kept@) == kept_from(
                    self@.take(i as int),
                    cutoff@,
                ),
            decreases self.entries.len() - i,
        {
            let date = chars_of(self.entries[i].0.as_str());
            proof {
                assert(self@.take(i as int + 1).drop_last() =~= self@.take(i as int));
            }
            if !chars_lt(&date, &limit) {
                kept.push((self.entries[i].0.clone(), self.entries[i].1));
            }
            i += 1;
        }
        proof {
            assert(self@.take(i as int) =~= self@);
        }
        Ledger { entries: kept }
    }
}

impl Clone for Ledger {
    fn clone(&self) -> (r: Ledger)
        ensures
            r@ == self@,
    {
        let copy = self.entries();
        Ledger { entries: copy }
    }
}

impl Default for Ledger {
    fn default() -> (r: Ledger)
        ensures
            r@ == Seq::<(Seq<char>, u64)>::empty(),
    {
        Ledger::new()
    }
}

} // verus!
