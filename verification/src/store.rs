//! The persisted root: settings, filter options and, for every machine that
//! shares the store, the processes tracked on that machine.

use crate::process::{clone_processes, process_views, Process, ProcessView};
use crate::process_list::{OptionsView, ProcessListOptions};
use crate::text::{first_index_of, lemma_first_index_found, lemma_first_index_of, str_eq, trim};
use vstd::prelude::*;
use vstd::string::*;

verus! {

/// File name of the persisted store inside the configuration directory.
pub const STORE_NAME: &'static str = "store.json";

/// The mathematical model of the per-machine data: machine identifier and
/// process list, in the order in which the machines were first recorded.
pub type Machines = Seq<(Seq<char>, Seq<ProcessView>)>;

/// The machine identifiers of `machines`, in order.
pub open spec fn machine_ids(machines: Machines) -> Seq<Seq<char>> {
    Seq::new(machines.len(), |i: int| machines[i].0)
}

/// Whether `machines` has a list for `id`.
pub open spec fn has_machine(machines: Machines, id: Seq<char>) -> bool {
    first_index_of(machine_ids(machines), id) is Some
}

/// The process list of machine `id`; empty where the machine is unknown.
pub open spec fn machine_list(machines: Machines, id: Seq<char>) -> Seq<ProcessView> {
    match first_index_of(machine_ids(machines), id) {
        Some(i) => machines[i].1,
        None => Seq::<ProcessView>::empty(),
    }
}

/// `machines` with `list` as the process list of machine `id`: the list of a
/// known machine is replaced in place, an unknown machine is added at the end.
pub open spec fn with_machine(machines: Machines, id: Seq<char>, list: Seq<ProcessView>) -> Machines {
    match first_index_of(machine_ids(machines), id) {
        Some(i) => machines.update(i, (id, list)),
        None => machines.push((id, list)),
    }
}

/// The process lists of all machines, one after the other. A title that
/// occurs on two machines occurs twice: usage is never merged across machines.
pub open spec fn all_processes(machines: Machines) -> Seq<ProcessView>
    decreases machines.len(),
{
    if machines.len() == 0 {
        Seq::<ProcessView>::empty()
    } else {
        all_processes(machines.drop_last()) + machines.last().1
    }
}

/// No machine identifier has two lists.
pub open spec fn distinct_machines(machines: Machines) -> bool {
    forall|i: int, j: int| 0 <= i < j < machines.len() ==> machines[i].0 != machines[j].0
}

/// After `with_machine` the machine has the new list, every other machine has
/// the list it had, and machines that were distinct stay distinct.
pub proof fn lemma_with_machine(machines: Machines, id: Seq<char>, list: Seq<ProcessView>)
    ensures
        machine_list(with_machine(machines, id, list), id) == list,
        has_machine(with_machine(machines, id, list), id),
        forall|other: Seq<char>|
            other != id ==> machine_list(with_machine(machines, id, list), other) == machine_list(
                machines,
                other,
            ) && has_machine(with_machine(machines, id, list), other) == has_machine(
                machines,
                other,
            ),
        distinct_machines(machines) ==> distinct_machines(with_machine(machines, id, list)),
        with_machine(machines, id, list).len() == if has_machine(machines, id) {
            machines.len()
        } else {
            machines.len() + 1
        },
{
    let after = with_machine(machines, id, list);
    lemma_first_index_of(machine_ids(machines), id);
    lemma_first_index_of(machine_ids(after), id);
    match first_index_of(machine_ids(machines), id) {
        Some(i) => {
            assert(machine_ids(after) =~= machine_ids(machines));
            assert forall|other: Seq<char>| other != id implies machine_list(after, other)
                == machine_list(machines, other) && has_machine(after, other) == has_machine(
                machines,
                other,
            ) by {
                lemma_first_index_of(machine_ids(machines), other);
            }
        },
        None => {
            assert(machine_ids(after).drop_last() =~= machine_ids(machines));
            assert forall|other: Seq<char>| other != id implies machine_list(after, other)
                == machine_list(machines, other) && has_machine(after, other) == has_machine(
                machines,
                other,
            ) by {
                lemma_first_index_of(machine_ids(machines), other);
            }
            if distinct_machines(machines) {
                assert forall|i: int, j: int| 0 <= i < j < after.len() implies after[i].0
                    != after[j].0 by {
                    if j == machines.len() {
                        assert(machine_ids(machines)[i] == machines[i].0);
                    }
                }
            }
        },
    }
}

/// The per-machine data built up from nothing by giving each machine of
/// `machines` its list, in order: how a store is put together from a file.
pub open spec fn rebuilt(machines: Machines) -> Machines
    decreases machines.len(),
{
    if machines.len() == 0 {
        machines
    } else {
        with_machine(rebuilt(machines.drop_last()), machines.last().0, machines.last().1)
    }
}

/// Per-machine data that is taken apart and put together again is what it
/// was, as long as no machine identifier has two lists.
pub proof fn lemma_rebuilt_is_what_it_was(machines: Machines)
    requires
        distinct_machines(machines),
    ensures
        rebuilt(machines) == machines,
    decreases machines.len(),
{
    if machines.len() > 0 {
        let shorter = machines.drop_last();
        lemma_rebuilt_is_what_it_was(shorter);
        lemma_first_index_of(machine_ids(shorter), machines.last().0);
        assert forall|j: int| 0 <= j < shorter.len() implies machine_ids(shorter)[j]
            != machines.last().0 by {
            assert(machine_ids(shorter)[j] == machines[j].0);
        }
        assert(shorter.push(machines.last()) =~= machines);
    }
}

/// Two machines that report a process of the same title give two entries in
/// the list of all processes, each with its own usage.
pub proof fn lemma_all_processes_keeps_machines_apart(
    first: Seq<char>,
    second: Seq<char>,
    a: ProcessView,
    b: ProcessView,
)
    ensures
        all_processes(seq![(first, seq![a]), (second, seq![b])]) == seq![a, b],
{
    let machines: Machines = seq![(first, seq![a]), (second, seq![b])];
    let one: Machines = seq![(first, seq![a])];
    assert(machines.drop_last() =~= one);
    assert(all_processes(one.drop_last()) =~= Seq::<ProcessView>::empty());
    assert(all_processes(one) =~= seq![a]);
}

/// The list of all processes is as long as the lists of the machines together
/// and holds every process of every machine.
pub proof fn lemma_all_processes_contains(machines: Machines, m: int, k: int)
    requires
        0 <= m < machines.len(),
        0 <= k < machines[m].1.len(),
    ensures
        all_processes(machines).contains(machines[m].1[k]),
    decreases machines.len(),
{
    let all = all_processes(machines);
    let before = all_processes(machines.drop_last());
    if m == machines.len() - 1 {
        assert(all[before.len() + k] == machines[m].1[k]);
    } else {
        lemma_all_processes_contains(machines.drop_last(), m, k);
        let j = choose|j: int| 0 <= j < before.len() && before[j] == machines[m].1[k];
        assert(all[j] == machines[m].1[k]);
    }
}

/// The model of one machine's identifier and process list.
pub open spec fn entry_view(entry: (String, Vec<Process>)) -> (Seq<char>, Seq<ProcessView>) {
    (entry.0@, process_views(entry.1@))
}

/// The model of a list of machines with their process lists.
pub open spec fn entries_of(lists: Seq<(String, Vec<Process>)>) -> Machines {
    Seq::new(lists.len(), |i: int| entry_view(lists[i]))
}

/// The machines whose identifiers are `ids`, each with the list that stands
/// at its place in `lists`.
pub open spec fn paired(ids: Seq<String>, lists: Seq<Vec<Process>>) -> Machines {
    Seq::new(ids.len(), |i: int| (ids[i]@, process_views(lists[i]@)))
}

/// The processes of every machine that shares the store, by machine
/// identifier. No identifier occurs twice.
#[derive(Debug)]
pub struct MachineData {
    ids: Vec<String>,
    lists: Vec<Vec<Process>>,
}

impl View for MachineData {
    type V = Machines;

    closed spec fn view(&self) -> Machines {
        paired(self.ids@, self.lists@)
    }
}

impl MachineData {
    #[verifier::type_invariant]
    spec fn inv(&self) -> bool {
        &&& self.ids.len() == self.lists.len()
        &&& forall|i: int, j: int|
            0 <= i < j < self.ids.len() ==> self.ids[i]@ != self.ids[j]@
    }

    /// No machine at all.
    pub fn new() -> (r: MachineData)
        ensures
            r@ == Seq::<(Seq<char>, Seq<ProcessView>)>::empty(),
    {
        let r = MachineData { ids: Vec::new(), lists: Vec::new() };
        assert(r@ =~= Seq::<(Seq<char>, Seq<ProcessView>)>::empty());
        r
    }

    /// The number of machines. No two of them share an identifier.
    pub fn len(&self) -> (n: usize)
        ensures
            n == self@.len(),
            distinct_machines(self@),
    {
        proof {
            use_type_invariant(self);
        }
        self.ids.len()
    }

    /// Whether there is no machine.
    pub fn is_empty(&self) -> (r: bool)
        ensures
            r == (self@.len() == 0),
    {
        self.ids.len() == 0
    }

    fn find(&self, id: &str) -> (r: Option<usize>)
        ensures
            match r {
                Some(i) => first_index_of(machine_ids(self@), id@) == Some(i as int) && i
                    < self@.len(),
                None => first_index_of(machine_ids(self@), id@) is None,
            },
    {
        let mut i: usize = 0;
        while i < self.ids.len()
            invariant
                i <= self.ids.len(),
                first_index_of(machine_ids(self@).take(i as int), id@) is None,
            decreases self.ids.len() - i,
        {
            proof {
                let next = machine_ids(self@).take(i as int + 1);
                assert(next.drop_last() =~= machine_ids(self@).take(i as int));
            }
            if str_eq(self.ids[i].as_str(), id) {
                proof {
                    lemma_first_index_found(machine_ids(self@), id@, i as int + 1);
                }
                return Some(i);
            }
            i += 1;
        }
        proof {
            assert(machine_ids(self@).take(self.ids.len() as int) =~= machine_ids(self@));
        }
        None
    }

    /// Whether machine `id` has a list.
    pub fn contains_key(&self, id: &str) -> (r: bool)
        ensures
            r == has_machine(self@, id@),
    {
        self.find(id).is_some()
    }

    /// The process list of machine `id`, if the machine is known.
    pub fn get(&self, id: &str) -> (r: Option<&Vec<Process>>)
        ensures
            r is Some == has_machine(self@, id@),
            r matches Some(list) ==> process_views(list@) == machine_list(self@, id@),
    {
        proof {
            use_type_invariant(self);
        }
        match self.find(id) {
            Some(i) => Some(&self.lists[i]),
            None => None,
        }
    }

    /// The identifier of the machine at `index`, in store order.
    pub fn machine_id_at(&self, index: usize) -> (r: &str)
        requires
            index < self@.len(),
        ensures
            r@ == self@[index as int].0,
    {
        self.ids[index].as_str()
    }

    /// The process list of the machine at `index`, in store order.
    pub fn processes_at(&self, index: usize) -> (r: &Vec<Process>)
        requires
            index < self@.len(),
        ensures
            process_views(r@) == self@[index as int].1,
    {
        proof {
            use_type_invariant(self);
        }
        &self.lists[index]
    }

    /// Makes `list` the process list of machine `id` and returns the list
    /// that the machine had.
    pub fn insert(&mut self, id: String, list: Vec<Process>) -> (previous: Option<Vec<Process>>)
        ensures
            final(self)@ == with_machine(old(self)@, id@, process_views(list@)),
            previous is Some == has_machine(old(self)@, id@),
            previous matches Some(p) ==> process_views(p@) == machine_list(old(self)@, id@),
    {
        proof {
            use_type_invariant(&*self);
            lemma_first_index_of(machine_ids(self@), id@);
        }
        let ghost before = self@;
        let found = self.find(id.as_str());
        let mut taken = MachineData::new();
        std::mem::swap(self, &mut taken);
        let MachineData { mut ids, mut lists } = taken;
        let ghost old_ids = ids@;
        proof {
            assert(forall|i: int| 0 <= i < old_ids.len() ==> machine_ids(before)[i] == old_ids[i]@);
        }
        let previous = match found {
            Some(i) => {
                let old_list = lists.remove(i);
                lists.insert(i, list);
                Some(old_list)
            },
            None => {
                ids.push(id);
                lists.push(list);
                None
            },
        };
        proof {
            assert(paired(ids@, lists@) =~= with_machine(before, id@, process_views(list@)));
            assert forall|i: int, j: int| 0 <= i < j < ids.len() implies ids[i]@ != ids[j]@ by {
                if j < old_ids.len() {
                    assert(ids[i] == old_ids[i] && ids[j] == old_ids[j]);
                } else {
                    assert(machine_ids(before)[i] == ids[i]@);
                }
            }
        }
        *self = MachineData { ids, lists };
        previous
    }

    /// The process list of machine `id`, to be changed in place. A machine
    /// that is unknown gets an empty list first.
    pub fn get_or_insert_mut(&mut self, id: &str) -> (r: &mut Vec<Process>)
        ensures
            process_views(r@) == machine_list(old(self)@, id@),
            final(self)@ == with_machine(old(self)@, id@, process_views(final(r)@)),
    {
        let ghost before = self@;
        proof {
            lemma_first_index_of(machine_ids(before), id@);
        }
        let index = match self.find(id) {
            Some(i) => i,
            None => {
                self.insert(String::from_str(id), Vec::new());
                proof {
                    assert(self@.len() == before.len() + 1);
                    assert(self@[before.len() as int] == (id@, Seq::<ProcessView>::empty()));
                }
                self.ids.len() - 1
            },
        };
        let ghost ids = self.ids@;
        let ghost middle = self.lists@;
        proof {
            use_type_invariant(&*self);
            let now = self@;
            assert(now.len() == ids.len() && middle.len() == ids.len());
            assert(forall|k: int|
                0 <= k < now.len() ==> now[k] == (ids[k]@, process_views(middle[k]@)));
            assert(now[index as int].0 == id@) by {
                if first_index_of(machine_ids(before), id@) is Some {
                    assert(machine_ids(before)[index as int] == id@);
                }
            }
            assert(now =~= with_machine(before, id@, machine_list(before, id@)));
            // Whatever the caller leaves in the list, the store holds it
            // under `id`.
            assert forall|list: Vec<Process>|
                paired(ids, #[trigger] middle.update(index as int, list)) == with_machine(
                    before,
                    id@,
                    process_views(list@),
                ) by {
                let after = paired(ids, middle.update(index as int, list));
                let wanted = with_machine(before, id@, process_views(list@));
                assert(after.len() == wanted.len());
                assert forall|k: int| 0 <= k < after.len() implies after[k] == wanted[k] by {
                    if k != index as int {
                        assert(after[k] == now[k]);
                    }
                }
                assert(after =~= wanted);
            }
        }
        &mut self.lists[index]
    }

    /// The machines with copies of their lists, in store order: what a file
    /// holds of them. Put together again by `from_lists`, they are what they
    /// were.
    pub fn lists(&self) -> (r: Vec<(String, Vec<Process>)>)
        ensures
            entries_of(r@) == self@,
            distinct_machines(self@),
            rebuilt(entries_of(r@)) == self@,
    {
        proof {
            use_type_invariant(self);
            lemma_rebuilt_is_what_it_was(self@);
        }
        let mut copy: Vec<(String, Vec<Process>)> = Vec::new();
        let mut i: usize = 0;
        while i < self.ids.len()
            invariant
                self.ids.len() == self.lists.len(),
                i <= self.ids.len(),
                entries_of(copy@) == self@.take(i as int),
            decreases self.ids.len() - i,
        {
            let ghost before = copy@;
            copy.push((self.ids[i].clone(), clone_processes(&self.lists[i])));
            proof {
                let wanted = self@.take(i as int + 1);
                assert(entries_of(before).len() == i);
                assert forall|k: int| 0 <= k <= i implies entries_of(copy@)[k] == wanted[k] by {
                    if k < i {
                        assert(copy@[k] == before[k]);
                        assert(entries_of(before)[k] == self@.take(i as int)[k]);
                    }
                }
                assert(entries_of(copy@) =~= wanted);
            }
            i += 1;
        }
        proof {
            assert(self@.take(i as int) =~= self@);
        }
        copy
    }

    /// The per-machine data put together from `lists`: each machine gets its
    /// list, in order; of two lists for one machine the later stands.
    pub fn from_lists(lists: Vec<(String, Vec<Process>)>) -> (r: MachineData)
        ensures
            r@ == rebuilt(entries_of(lists@)),
    {
        let ghost all = entries_of(lists@);
        let mut data = MachineData::new();
        for entry in it: lists.into_iter()
            invariant
                all == entries_of(it.seq()),
                data@ == rebuilt(all.take(it.index() as int)),
        {
            proof {
                let done = it.index() as int;
                assert(all.take(done + 1).drop_last() =~= all.take(done));
            }
            data.insert(entry.0, entry.1);
        }
        proof {
            assert(all.take(all.len() as int) =~= all);
        }
        data
    }

    /// The process lists of all machines, one after the other.
    pub fn all_processes(&self) -> (r: Vec<Process>)
        ensures
            process_views(r@) == all_processes(self@),
    {
        proof {
            use_type_invariant(self);
        }
        let mut all: Vec<Process> = Vec::new();
        let mut i: usize = 0;
        while i < self.lists.len()
            invariant
                self.ids.len() == self.lists.len(),
                i <= self.lists.len(),
                process_views(all@) == all_processes(self@.take(i as int)),
            decreases self.lists.len() - i,
        {
            let mut copy = clone_processes(&self.lists[i]);
            all.append(&mut copy);
            proof {
                assert(self@.take(i as int + 1).drop_last() =~= self@.take(i as int));
            }
            i += 1;
        }
        proof {
            assert(self@.take(i as int) =~= self@);
        }
        all
    }
}

/// The persisted root object.
#[derive(Debug)]
pub struct LachesStore {
    /// The process id of the monitor, for stopping it later.
    pub daemon_pid: u32,
    /// Whether the monitor starts with the session.
    pub autostart: bool,
    /// The period of the monitor, in seconds.
    pub update_interval: u64,
    /// The tracked processes of every machine that shares the store.
    pub machine_data: MachineData,
    /// The filter applied to reports.
    pub process_list_options: ProcessListOptions,
}

/// The mathematical model of a store.
pub struct StoreView {
    pub daemon_pid: u32,
    pub autostart: bool,
    pub update_interval: u64,
    pub machine_data: Machines,
    pub process_list_options: OptionsView,
}

impl View for LachesStore {
    type V = StoreView;

    open spec fn view(&self) -> StoreView {
        StoreView {
            daemon_pid: self.daemon_pid,
            autostart: self.autostart,
            update_interval: self.update_interval,
            machine_data: self.machine_data@,
            process_list_options: self.process_list_options@,
        }
    }
}

impl StoreView {
    /// The store that is created where none exists.
    pub open spec fn initial() -> StoreView {
        StoreView {
            daemon_pid: u32::MAX,
            autostart: true,
            update_interval: 5,
            machine_data: Seq::<(Seq<char>, Seq<ProcessView>)>::empty(),
            process_list_options: OptionsView::initial(),
        }
    }

    /// The store with `list` as the process list of machine `id`.
    pub open spec fn with_machine(self, id: Seq<char>, list: Seq<ProcessView>) -> StoreView {
        StoreView { machine_data: with_machine(self.machine_data, id, list), ..self }
    }

    /// The processes that a command looks at: those of all machines, or those
    /// of machine `id`.
    pub open spec fn selected(self, id: Seq<char>, all_machines: bool) -> Seq<ProcessView> {
        if all_machines {
            all_processes(self.machine_data)
        } else {
            machine_list(self.machine_data, id)
        }
    }
}

impl Default for LachesStore {
    fn default() -> (r: LachesStore)
        ensures
            r@ == StoreView::initial(),
    {
        LachesStore {
            autostart: true,
            update_interval: 5,
            machine_data: MachineData::new(),
            daemon_pid: u32::MAX,
            process_list_options: ProcessListOptions::default(),
        }
    }
}

impl LachesStore {
    /// A copy of the process list of machine `machine_id`; empty where the
    /// machine is unknown.
    pub fn get_machine_processes(&self, machine_id: &str) -> (r: Vec<Process>)
        ensures
            process_views(r@) == machine_list(self@.machine_data, machine_id@),
    {
        match self.machine_data.get(machine_id) {
            Some(list) => clone_processes(list),
            None => {
                let empty: Vec<Process> = Vec::new();
                empty
            },
        }
    }

    /// The process list of machine `machine_id`, to be changed in place. A
    /// machine that is unknown gets an empty list first.
    pub fn get_machine_processes_mut(&mut self, machine_id: &str) -> (r: &mut Vec<Process>)
        ensures
            process_views(r@) == machine_list(old(self)@.machine_data, machine_id@),
            final(self)@ == old(self)@.with_machine(machine_id@, process_views(final(r)@)),
    {
        self.machine_data.get_or_insert_mut(machine_id)
    }

    /// The process list filed under the host name `hostname`, to be changed
    /// in place.
    pub fn get_current_machine_processes_mut(&mut self, hostname: &str) -> (r: &mut Vec<Process>)
        ensures
            process_views(r@) == machine_list(old(self)@.machine_data, hostname@),
            final(self)@ == old(self)@.with_machine(hostname@, process_views(final(r)@)),
    {
        self.machine_data.get_or_insert_mut(hostname)
    }

    /// A copy of the process list filed under the host name `hostname`, the
    /// key that stores used before machines had identifiers of their own.
    pub fn get_current_machine_processes(&self, hostname: &str) -> (r: Vec<Process>)
        ensures
            process_views(r@) == machine_list(self@.machine_data, hostname@),
    {
        self.get_machine_processes(hostname)
    }

    /// The processes of all machines, one list after the other, without
    /// merging equal titles.
    pub fn get_all_processes(&self) -> (r: Vec<Process>)
        ensures
            process_views(r@) == all_processes(self@.machine_data),
    {
        self.machine_data.all_processes()
    }

    /// The processes that a command looks at: those of all machines, or those
    /// of machine `machine_id`.
    pub fn selected_processes(&self, machine_id: &str, all_machines: bool) -> (r: Vec<Process>)
        ensures
            process_views(r@) == self@.selected(machine_id@, all_machines),
    {
        if all_machines {
            self.get_all_processes()
        } else {
            self.get_machine_processes(machine_id)
        }
    }
}

/// A copy of the process list filed under the host name `hostname`.
pub fn get_stored_processes(laches_config: &LachesStore, hostname: &str) -> (r: Vec<Process>)
    ensures
        process_views(r@) == machine_list(laches_config@.machine_data, hostname@),
{
    laches_config.get_current_machine_processes(hostname)
}

/// The identity of a machine: its identifier, and whether the identifier was
/// made up just now and has yet to be written down.
#[derive(Debug)]
pub struct MachineIdentity {
    pub id: String,
    pub generated: bool,
}

/// A random identifier from `Uuid::new_v4`, in the hyphenated form that its
/// `Display` writes. It is random, so nothing is claimed of it.
#[verifier::external_body]
fn fresh_uuid() -> (uuid: String) {
    uuid::Uuid::new_v4().to_string()
}

/// The identifier made of a host name and a unique part.
pub open spec fn composed_id(hostname: Seq<char>, unique: Seq<char>) -> Seq<char> {
    hostname + seq!['_'] + unique
}

/// The identifier that a sidecar file holds: its content without the
/// whitespace around it, if anything is left.
pub open spec fn stored_id(content: Option<Seq<char>>) -> Option<Seq<char>> {
    match content {
        Some(text) => if trim(text).len() > 0 {
            Some(trim(text))
        } else {
            None
        },
        None => None,
    }
}

/// The identifier made of the host name `hostname` and the unique part
/// `unique`, joined by an underscore.
pub fn compose_machine_id(hostname: &str, unique: &str) -> (r: String)
    ensures
        r@ == composed_id(hostname@, unique@),
{
    proof {
        reveal_strlit("_");
    }
    let mut id = String::from_str(hostname);
    id.append("_");
    id.append(unique);
    id
}

/// The identifier of this machine, given the content of the sidecar file,
/// if there is one, and the host name. An identifier on file is taken as it
/// is, without the whitespace around it; otherwise one is made of the host
/// name and a random part, and is marked as generated so that it gets
/// written down.
pub fn get_machine_id(stored: Option<&str>, hostname: &str) -> (r: MachineIdentity)
    ensures
        match stored_id(
            match stored {
                Some(text) => Some(text@),
                None => None,
            },
        ) {
            Some(id) => r.id@ == id && !r.generated,
            None => r.generated && exists|unique: Seq<char>|
                r.id@ == #[trigger] composed_id(hostname@, unique),
        },
{
    match stored {
        Some(text) => {
            let kept = crate::text::trimmed(text);
            if kept.as_str().unicode_len() > 0 {
                return MachineIdentity { id: kept, generated: false };
            }
        },
        None => {},
    }
    let unique = fresh_uuid();
    MachineIdentity { id: compose_machine_id(hostname, unique.as_str()), generated: true }
}

} // verus!
