use laches::ledger::Ledger;
use laches::process::Process;
use laches::store::{
    compose_machine_id, get_machine_id, get_stored_processes, LachesStore, MachineData,
};

fn is_date(text: &str) -> bool {
    let bytes = text.as_bytes();
    bytes.len() == 10
        && bytes[4] == b'-'
        && bytes[7] == b'-'
        && bytes
            .iter()
            .enumerate()
            .all(|(i, b)| i == 4 || i == 7 || b.is_ascii_digit())
}

#[test]
fn test_process_new() {
    let process = Process::new("test_process".to_string());
    assert_eq!(process.title, "test_process");
    assert_eq!(process.get_total_usage(), 0);
    assert_eq!(process.daily_usage.len(), 0);
    assert_eq!(process.tags.len(), 0);
    assert!(!process.last_seen.is_empty());
}

#[test]
fn test_process_add_time() {
    let mut process = Process::new("test_process".to_string());
    process.add_time(100);

    assert_eq!(process.get_total_usage(), 100);
    assert_eq!(process.get_today_usage(), 100);
    assert_eq!(process.get_total_usage(), 100);
}

#[test]
fn test_process_add_time_multiple() {
    let mut process = Process::new("test_process".to_string());
    process.add_time(100);
    process.add_time(50);
    process.add_time(25);

    assert_eq!(process.get_total_usage(), 175);
    assert_eq!(process.get_today_usage(), 175);
    assert_eq!(process.get_total_usage(), 175);
}

#[test]
fn test_process_get_today_usage_zero() {
    let process = Process::new("test_process".to_string());
    assert_eq!(process.get_today_usage(), 0);
}

#[test]
fn test_process_get_total_usage_with_multiple_days() {
    let mut process = Process::new("test_process".to_string());
    let today = chrono::Local::now().format("%Y-%m-%d").to_string();
    let yesterday = (chrono::Local::now() - chrono::Duration::days(1))
        .format("%Y-%m-%d")
        .to_string();

    process.daily_usage.insert(today, 100);
    process.daily_usage.insert(yesterday, 200);

    assert_eq!(process.get_total_usage(), 300);
}

#[test]
fn test_laches_store_default() {
    let store = LachesStore::default();
    assert!(store.autostart);
    assert_eq!(store.update_interval, 5);
    assert_eq!(store.machine_data.len(), 0);
    assert_eq!(store.daemon_pid, u32::MAX);
}

#[test]
fn test_get_stored_processes() {
    let mut store = LachesStore::default();
    let hostname = "test-host".to_string();

    let process1 = Process::new("process1".to_string());
    let process2 = Process::new("process2".to_string());

    store
        .machine_data
        .insert(hostname.clone(), vec![process1, process2]);

    let stored = get_stored_processes(&store, &hostname);
    assert_eq!(stored.len(), 2);
    assert_eq!(stored[0].title, "process1");
    assert_eq!(stored[1].title, "process2");
}

#[test]
fn test_multi_machine_storage() {
    let mut store = LachesStore::default();

    // Simulate data from multiple machines
    let machine1_processes = vec![
        Process::new("machine1_process1".to_string()),
        Process::new("machine1_process2".to_string()),
    ];

    let machine2_processes = vec![Process::new("machine2_process1".to_string())];

    store
        .machine_data
        .insert("machine1".to_string(), machine1_processes);
    store
        .machine_data
        .insert("machine2".to_string(), machine2_processes);

    // Verify data is stored separately
    assert_eq!(store.machine_data.len(), 2);
    assert_eq!(store.machine_data.get("machine1").unwrap().len(), 2);
    assert_eq!(store.machine_data.get("machine2").unwrap().len(), 1);

    // Verify get_all_processes returns all
    let all = store.get_all_processes();
    assert_eq!(all.len(), 3);
}

#[test]
fn test_get_current_machine_processes() {
    let mut store = LachesStore::default();
    let hostname = "test-host".to_string();

    let current_machine_processes = vec![
        Process::new("local_process1".to_string()),
        Process::new("local_process2".to_string()),
    ];

    let other_machine_processes = vec![Process::new("remote_process1".to_string())];

    store
        .machine_data
        .insert(hostname.clone(), current_machine_processes);
    store
        .machine_data
        .insert("other_machine".to_string(), other_machine_processes);

    let current = store.get_current_machine_processes(&hostname);
    assert_eq!(current.len(), 2);
    assert_eq!(current[0].title, "local_process1");
    assert_eq!(current[1].title, "local_process2");
}

#[test]
fn test_get_current_machine_processes_mut() {
    let mut store = LachesStore::default();

    let processes = store.get_current_machine_processes_mut("test-host");
    processes.push(Process::new("test_process".to_string()));

    let current = store.get_current_machine_processes("test-host");
    assert_eq!(current.len(), 1);
    assert_eq!(current[0].title, "test_process");
}

#[test]
fn test_machine_data_isolation() {
    let mut store = LachesStore::default();

    // Add processes to different machines
    let mut proc1 = Process::new("same_app".to_string());
    proc1.add_time(100);
    store
        .machine_data
        .insert("machine1".to_string(), vec![proc1]);

    let mut proc2 = Process::new("same_app".to_string());
    proc2.add_time(200);
    store
        .machine_data
        .insert("machine2".to_string(), vec![proc2]);

    // Verify each machine has its own independent time tracking for same app
    let m1_data = store.machine_data.get("machine1").unwrap();
    let m2_data = store.machine_data.get("machine2").unwrap();

    assert_eq!(m1_data[0].get_total_usage(), 100);
    assert_eq!(m2_data[0].get_total_usage(), 200);
}

#[test]
fn test_machine_id_generation() {
    // Generate machine ID first time: nothing is on file yet
    let first = get_machine_id(None, "test-host");
    assert!(first.generated);
    let machine_id1 = first.id;
    assert!(!machine_id1.is_empty());
    assert!(machine_id1.contains("_")); // Should contain separators

    // Second call should return the same ID (from file)
    let second = get_machine_id(Some(&machine_id1), "test-host");
    assert!(!second.generated);
    assert_eq!(machine_id1, second.id);
}

#[test]
fn test_get_machine_processes_with_path() {
    let machine_id = get_machine_id(None, "test-host").id;

    let mut store = LachesStore::default();
    let process1 = Process::new("process1".to_string());
    let process2 = Process::new("process2".to_string());

    store
        .machine_data
        .insert(machine_id.clone(), vec![process1, process2]);

    let stored = store.get_machine_processes(&machine_id);
    assert_eq!(stored.len(), 2);
    assert_eq!(stored[0].title, "process1");
    assert_eq!(stored[1].title, "process2");
}

#[test]
fn test_machine_id_is_host_name_and_unique_part() {
    let a = get_machine_id(None, "host").id;
    let b = get_machine_id(None, "host").id;
    assert!(a.starts_with("host_"));
    assert!(b.starts_with("host_"));
    assert_eq!(a.len(), "host_".len() + 36);
    assert_ne!(a, b);
    assert_eq!(compose_machine_id("host", "1234"), "host_1234");
}

#[test]
fn test_machine_id_on_file_is_trimmed() {
    let identity = get_machine_id(Some("  laptop_abc \n"), "other");
    assert_eq!(identity.id, "laptop_abc");
    assert!(!identity.generated);

    let blank = get_machine_id(Some(" \n\t"), "other");
    assert!(blank.generated);
    assert!(blank.id.starts_with("other_"));

    let empty = get_machine_id(Some(""), "other");
    assert!(empty.generated);
}

#[test]
fn test_process_new_is_seen_today() {
    let process = Process::new("test_process".to_string());
    assert!(is_date(&process.last_seen));
    let today = chrono::Local::now().format("%Y-%m-%d").to_string();
    let yesterday = (chrono::Local::now() - chrono::Duration::days(1))
        .format("%Y-%m-%d")
        .to_string();
    assert!(process.last_seen == today || process.last_seen == yesterday);
}

#[test]
fn test_scenario_usage_on_dates() {
    let mut process = Process::new_on("chrome.exe".to_string(), "2024-01-02".to_string());
    process.daily_usage.insert("2024-01-01".to_string(), 100);
    process.daily_usage.insert("2024-01-02".to_string(), 200);

    assert_eq!(process.get_total_usage(), 300);
    assert_eq!(process.usage_on("2024-01-01"), 100);
    assert_eq!(process.usage_on("2024-01-03"), 0);
}

#[test]
fn test_add_time_on_one_day_sums_up() {
    let mut process = Process::new_on("editor".to_string(), "2024-03-01".to_string());
    process.add_time_on("2024-03-01", 40);
    process.add_time_on("2024-03-02", 5);
    process.add_time_on("2024-03-02", 7);
    process.add_time_on("2024-03-02", 11);

    assert_eq!(process.usage_on("2024-03-02"), 23);
    assert_eq!(process.usage_on("2024-03-01"), 40);
    assert_eq!(process.get_total_usage(), 63);
    assert_eq!(process.last_seen, "2024-03-02");
    assert_eq!(process.daily_usage.len(), 2);
}

#[test]
fn test_can_add_time_at_the_limit() {
    let mut process = Process::new_on("editor".to_string(), "2024-03-01".to_string());
    process.add_time_on("2024-03-01", u64::MAX - 10);
    assert!(process.can_add_time(10));
    assert!(!process.can_add_time(11));
    process.add_time_on("2024-03-02", 10);
    assert_eq!(process.get_total_usage(), u64::MAX);
    assert!(process.can_add_time(0));
    assert!(!process.can_add_time(1));
}

#[test]
fn test_ledger_insert_replaces_and_reports() {
    let mut ledger = Ledger::new();
    assert!(ledger.is_empty());
    assert_eq!(ledger.insert("2024-01-01".to_string(), 5), None);
    assert_eq!(ledger.insert("2024-01-02".to_string(), 7), None);
    assert_eq!(ledger.insert("2024-01-01".to_string(), 9), Some(5));
    assert_eq!(ledger.len(), 2);
    assert_eq!(ledger.total(), 16);
    assert_eq!(ledger.get("2024-01-01"), Some(9));
    assert_eq!(ledger.get("2024-01-03"), None);
    assert!(ledger.contains_key("2024-01-02"));
    assert!(!ledger.contains_key("2024-01-03"));
    assert_eq!(ledger.entry(0), ("2024-01-01", 9));
    assert_eq!(ledger.entry(1), ("2024-01-02", 7));
    assert!(ledger.can_hold("2024-01-01", u64::MAX - 7));
    assert!(!ledger.can_hold("2024-01-03", u64::MAX - 7));
    assert!(ledger.can_add(u64::MAX - 16));
    assert!(!ledger.can_add(u64::MAX - 15));
}

#[test]
fn test_ledger_retain_from_cutoff() {
    let mut ledger = Ledger::new();
    ledger.insert("2024-01-05".to_string(), 1);
    ledger.insert("2024-01-09".to_string(), 2);
    ledger.insert("2024-01-07".to_string(), 4);
    ledger.insert("2023-12-31".to_string(), 8);
    let dropped = ledger.retain_from("2024-01-07");
    assert_eq!(dropped, 2);
    assert_eq!(ledger.len(), 2);
    assert_eq!(ledger.entry(0), ("2024-01-09", 2));
    assert_eq!(ledger.entry(1), ("2024-01-07", 4));
    let copy = ledger.clone();
    ledger.clear();
    assert_eq!(ledger.len(), 0);
    assert_eq!(copy.total(), 6);
}

#[test]
fn test_scenario_two_machines_same_title() {
    let mut store = LachesStore::default();
    let mut on_a = Process::new_on("shared.exe".to_string(), "2024-01-01".to_string());
    on_a.add_time_on("2024-01-01", 50);
    let mut on_b = Process::new_on("shared.exe".to_string(), "2024-01-01".to_string());
    on_b.add_time_on("2024-01-01", 70);
    store.machine_data.insert("A".to_string(), vec![on_a]);
    store.machine_data.insert("B".to_string(), vec![on_b]);

    let all = store.get_all_processes();
    assert_eq!(all.len(), 2);
    assert_eq!(all[0].title, "shared.exe");
    assert_eq!(all[1].title, "shared.exe");
    assert_eq!(all[0].get_total_usage(), 50);
    assert_eq!(all[1].get_total_usage(), 70);
}

#[test]
fn test_machine_data_insert_replaces_in_place() {
    let mut store = LachesStore::default();
    assert!(store.machine_data.is_empty());
    let first = store
        .machine_data
        .insert("A".to_string(), vec![Process::new("one".to_string())]);
    assert!(first.is_none());
    store
        .machine_data
        .insert("B".to_string(), vec![Process::new("two".to_string())]);
    let replaced = store.machine_data.insert("A".to_string(), Vec::new());
    assert_eq!(replaced.unwrap()[0].title, "one");
    assert_eq!(store.machine_data.len(), 2);
    assert_eq!(store.machine_data.machine_id_at(0), "A");
    assert_eq!(store.machine_data.machine_id_at(1), "B");
    assert_eq!(store.machine_data.processes_at(0).len(), 0);
    assert!(store.machine_data.contains_key("B"));
    assert!(!store.machine_data.contains_key("C"));
    assert!(store.machine_data.get("C").is_none());
    assert_eq!(store.get_machine_processes("C").len(), 0);
    assert_eq!(store.machine_data.len(), 2);
    assert_eq!(store.get_machine_processes_mut("C").len(), 0);
    assert_eq!(store.machine_data.len(), 3);
}

#[test]
fn test_ledger_entries_round_trip() {
    let mut ledger = Ledger::new();
    ledger.insert("2024-01-02".to_string(), 7);
    ledger.insert("2024-01-01".to_string(), 5);
    let entries = ledger.entries();
    assert_eq!(
        entries,
        vec![("2024-01-02".to_string(), 7), ("2024-01-01".to_string(), 5)]
    );
    let back = Ledger::from_entries(entries.clone()).unwrap();
    assert_eq!(back.entries(), entries);
    assert_eq!(back.total(), 12);
    assert_eq!(Ledger::from_entries(Vec::new()).unwrap().len(), 0);
}

#[test]
fn test_ledger_from_entries_refuses_unsound_entries() {
    let twice = vec![
        ("2024-01-01".to_string(), 1),
        ("2024-01-02".to_string(), 2),
        ("2024-01-01".to_string(), 3),
    ];
    assert!(Ledger::from_entries(twice).is_none());
    let too_much = vec![
        ("2024-01-01".to_string(), u64::MAX),
        ("2024-01-02".to_string(), 1),
    ];
    assert!(Ledger::from_entries(too_much).is_none());
    let just_enough = vec![
        ("2024-01-01".to_string(), u64::MAX - 1),
        ("2024-01-02".to_string(), 1),
    ];
    assert_eq!(Ledger::from_entries(just_enough).unwrap().total(), u64::MAX);
}

#[test]
fn test_machine_data_from_lists_keeps_order() {
    let data = MachineData::from_lists(vec![
        ("B".to_string(), vec![Process::new("one".to_string())]),
        ("A".to_string(), Vec::new()),
        ("B".to_string(), vec![Process::new("two".to_string())]),
    ]);
    assert_eq!(data.len(), 2);
    assert_eq!(data.machine_id_at(0), "B");
    assert_eq!(data.machine_id_at(1), "A");
    assert_eq!(data.processes_at(0)[0].title, "two");
    assert_eq!(MachineData::from_lists(Vec::new()).len(), 0);
}

#[test]
fn test_machine_data_lists_round_trip() {
    let mut data = MachineData::new();
    let mut first = Process::new_on("editor".to_string(), "2024-03-01".to_string());
    first.add_time_on("2024-03-01", 40);
    data.insert("laptop".to_string(), vec![first]);
    data.insert("desktop".to_string(), Vec::new());
    data.get_or_insert_mut("tablet")
        .push(Process::new_on("reader".to_string(), "2024-03-02".to_string()));
    data.get_or_insert_mut("laptop")
        .push(Process::new_on("shell".to_string(), "2024-03-02".to_string()));

    let lists = data.lists();
    let ids: Vec<&str> = lists.iter().map(|entry| entry.0.as_str()).collect();
    assert_eq!(ids, vec!["laptop", "desktop", "tablet"]);
    assert_eq!(lists[0].1.len(), 2);
    assert_eq!(lists[0].1[0].usage_on("2024-03-01"), 40);

    let again = MachineData::from_lists(lists);
    assert_eq!(again.len(), data.len());
    for index in 0..data.len() {
        assert_eq!(again.machine_id_at(index), data.machine_id_at(index));
        let was = data.processes_at(index);
        let is = again.processes_at(index);
        assert_eq!(is.len(), was.len());
        for k in 0..was.len() {
            assert_eq!(is[k].title, was[k].title);
            assert_eq!(is[k].daily_usage.entries(), was[k].daily_usage.entries());
            assert_eq!(is[k].last_seen, was[k].last_seen);
        }
    }
}

#[test]
fn test_machine_data_never_holds_an_id_twice() {
    let mut data = MachineData::new();
    data.insert("A".to_string(), Vec::new());
    data.get_or_insert_mut("A")
        .push(Process::new_on("one".to_string(), "2024-03-01".to_string()));
    data.insert("A".to_string(), Vec::new());
    data.get_or_insert_mut("B");
    data.get_or_insert_mut("B");
    assert_eq!(data.len(), 2);
    assert_eq!(data.machine_id_at(0), "A");
    assert_eq!(data.machine_id_at(1), "B");
    assert!(data.get("A").unwrap().is_empty());
}
