use laches::monitor::{
    active_processes_from, distinct_names, get_active_processes, observe_process, tick, tick_on,
    TickReport,
};
use laches::process::Process;
use laches::store::LachesStore;

#[test]
fn test_get_active_processes_returns_vector() {
    // This test verifies that get_active_processes returns a vector
    // The actual content will vary by system
    let processes = get_active_processes();

    // Should be a valid vector (might be empty or populated)
    assert!(processes.len() >= 0);
}

#[test]
fn test_get_active_processes_no_duplicates() {
    let processes = get_active_processes();

    // Check that there are no duplicate process names
    let mut seen_titles = std::collections::HashSet::new();
    for process in &processes {
        assert!(
            seen_titles.insert(process.title.clone()),
            "Duplicate process title found: {}",
            process.title
        );
    }
}

#[test]
fn test_get_active_processes_no_empty_names() {
    let processes = get_active_processes();

    // Verify no process has an empty name
    for process in &processes {
        assert!(
            !process.title.trim().is_empty(),
            "Process with empty name found"
        );
    }
}

#[test]
fn test_get_active_processes_creates_new_processes() {
    let processes = get_active_processes();

    // Each process should be newly created with uptime of 0
    for process in &processes {
        assert_eq!(process.get_total_usage(), 0);
        assert_eq!(process.daily_usage.len(), 0);
        assert_eq!(process.tags.len(), 0);
    }
}

#[test]
fn test_get_active_processes_integration() {
    let processes = get_active_processes();

    for process in &processes {
        assert!(!process.title.is_empty());
        assert_eq!(process.get_total_usage(), 0); // new processes start with 0 uptime
    }
}

#[test]
fn test_get_active_processes_sees_this_machine() {
    // The test itself runs, so something is running.
    let processes = get_active_processes();
    assert!(!processes.is_empty());
}

#[test]
fn test_add_process_to_store() {
    let mut loaded_store = LachesStore::default();
    loaded_store.update_interval = 5;
    let machine_id = "machine".to_string();

    let mut new_process = Process::new("test_process".to_string());
    new_process.add_time(5);
    let current_machine_processes = loaded_store.get_machine_processes_mut(&machine_id);
    current_machine_processes.push(new_process);

    let processes = loaded_store.machine_data.get(&machine_id).unwrap();
    assert_eq!(processes.len(), 1);
    assert_eq!(processes[0].title, "test_process");
    assert_eq!(processes[0].get_total_usage(), 5);
}

#[test]
fn test_update_existing_process() {
    let mut loaded_store = LachesStore::default();
    let machine_id = "machine".to_string();
    let mut process = Process::new("existing_process".to_string());
    process.add_time(10);
    loaded_store
        .machine_data
        .insert(machine_id.clone(), vec![process]);

    let current_machine_processes = loaded_store.get_machine_processes_mut(&machine_id);
    for stored_process in current_machine_processes.iter_mut() {
        if stored_process.title == "existing_process" {
            stored_process.add_time(5);
            break;
        }
    }

    let processes = loaded_store.machine_data.get(&machine_id).unwrap();
    assert_eq!(processes.len(), 1);
    assert_eq!(processes[0].get_total_usage(), 15);
}

#[test]
fn test_multiple_tick_cycles() {
    let mut store = LachesStore::default();
    store.update_interval = 5;
    let machine_id = "machine".to_string();
    let live = vec!["test_process".to_string()];

    for _cycle in 1..=3 {
        let interval = store.update_interval;
        tick(&mut store, &machine_id, &live, interval);
    }

    let processes = store.machine_data.get(&machine_id).unwrap();
    assert_eq!(processes.len(), 1);
    assert_eq!(processes[0].title, "test_process");
    assert_eq!(processes[0].get_total_usage(), 15); // 3 cycles * 5 seconds
}

#[test]
fn test_concurrent_process_tracking() {
    let mut store = LachesStore::default();
    store.update_interval = 5;
    let machine_id = "machine".to_string();

    let processes_to_track = vec!["process1", "process2", "process3"];

    for process_name in &processes_to_track {
        let mut new_process = Process::new(process_name.to_string());
        new_process.add_time(5);
        let current_machine_processes = store.get_machine_processes_mut(&machine_id);
        current_machine_processes.push(new_process);
    }

    let processes = store.machine_data.get(&machine_id).unwrap();
    assert_eq!(processes.len(), 3);

    let titles: Vec<String> = processes.iter().map(|p| p.title.clone()).collect();

    for process_name in &processes_to_track {
        assert!(titles.contains(&process_name.to_string()));
    }
}

#[test]
fn test_tick_on_updates_and_creates() {
    let mut store = LachesStore::default();
    let mut known = Process::new_on("editor".to_string(), "2024-01-01".to_string());
    known.add_time_on("2024-01-01", 100);
    known.tags.push("work".to_string());
    let idle = Process::new_on("idle".to_string(), "2024-01-01".to_string());
    store
        .machine_data
        .insert("here".to_string(), vec![known, idle]);
    store
        .machine_data
        .insert("there".to_string(), vec![Process::new("editor".to_string())]);

    let live = vec!["editor".to_string(), "browser".to_string()];
    let report = tick_on(&mut store, "here", &live, 5, "2024-01-02");
    assert_eq!(
        report,
        TickReport {
            updated: 1,
            created: 1,
            full: 0
        }
    );

    let here = store.get_machine_processes("here");
    assert_eq!(here.len(), 3);
    assert_eq!(here[0].title, "editor");
    assert_eq!(here[0].usage_on("2024-01-01"), 100);
    assert_eq!(here[0].usage_on("2024-01-02"), 5);
    assert_eq!(here[0].last_seen, "2024-01-02");
    assert_eq!(here[0].tags, vec!["work".to_string()]);
    assert_eq!(here[1].title, "idle");
    assert_eq!(here[1].get_total_usage(), 0);
    assert_eq!(here[1].last_seen, "2024-01-01");
    assert_eq!(here[2].title, "browser");
    assert_eq!(here[2].usage_on("2024-01-02"), 5);
    assert_eq!(here[2].last_seen, "2024-01-02");
    // The other machine's ledger is untouched.
    assert_eq!(store.get_machine_processes("there")[0].get_total_usage(), 0);

    tick_on(&mut store, "here", &live, 5, "2024-01-02");
    let here = store.get_machine_processes("here");
    assert_eq!(here.len(), 3);
    assert_eq!(here[0].usage_on("2024-01-02"), 10);
    assert_eq!(here[2].usage_on("2024-01-02"), 10);
}

#[test]
fn test_tick_on_unknown_machine_and_repeated_name() {
    let mut store = LachesStore::default();
    let live = vec!["a".to_string(), "a".to_string()];
    let report = tick_on(&mut store, "new", &live, 3, "2024-01-02");
    assert_eq!(report.created, 1);
    assert_eq!(report.updated, 1);
    let list = store.get_machine_processes("new");
    assert_eq!(list.len(), 1);
    assert_eq!(list[0].get_total_usage(), 6);

    let nothing: Vec<String> = Vec::new();
    tick_on(&mut store, "quiet", &nothing, 3, "2024-01-02");
    assert!(store.machine_data.contains_key("quiet"));
    assert_eq!(store.get_machine_processes("quiet").len(), 0);
}

#[test]
fn test_observe_process_leaves_full_ledger_alone() {
    let mut full = Process::new_on("old".to_string(), "2024-01-01".to_string());
    full.add_time_on("2024-01-01", u64::MAX - 2);
    let mut list = vec![full];
    let report = observe_process(&mut list, "old", 3, "2024-01-02");
    assert_eq!(report.full, 1);
    assert_eq!(list[0].get_total_usage(), u64::MAX - 2);
    assert_eq!(list[0].last_seen, "2024-01-01");
    let report = observe_process(&mut list, "old", 2, "2024-01-02");
    assert_eq!(report.updated, 1);
    assert_eq!(list[0].get_total_usage(), u64::MAX);
}

#[test]
fn test_distinct_names_drops_blanks_and_repeats() {
    let names = vec![
        "bash".to_string(),
        "".to_string(),
        "  ".to_string(),
        "vim".to_string(),
        "bash".to_string(),
        " vim".to_string(),
    ];
    assert_eq!(
        distinct_names(&names),
        vec!["bash".to_string(), "vim".to_string(), " vim".to_string()]
    );
    let processes = active_processes_from(&names, "2024-05-05");
    assert_eq!(processes.len(), 3);
    assert_eq!(processes[1].title, "vim");
    assert_eq!(processes[1].last_seen, "2024-05-05");
    assert_eq!(processes[1].get_total_usage(), 0);
}

#[test]
fn test_tick_reports_each_count() {
    let mut store = LachesStore::default();
    let mut full = Process::new_on("full".to_string(), "2024-01-01".to_string());
    full.add_time_on("2024-01-01", u64::MAX);
    let known = Process::new_on("known".to_string(), "2024-01-01".to_string());
    store
        .machine_data
        .insert("here".to_string(), vec![full, known]);

    let live = vec![
        "known".to_string(),
        "fresh".to_string(),
        "full".to_string(),
        "other".to_string(),
    ];
    let report = tick(&mut store, "here", &live, 7);
    assert_eq!(
        report,
        TickReport {
            updated: 1,
            created: 2,
            full: 1
        }
    );
    let list = store.get_machine_processes("here");
    assert_eq!(list.len(), 4);
    assert_eq!(list[0].get_total_usage(), u64::MAX);
    assert_eq!(list[1].get_total_usage(), 7);
    assert_eq!(list[2].title, "fresh");
    assert_eq!(list[2].get_total_usage(), 7);
    assert_eq!(list[3].title, "other");
}
