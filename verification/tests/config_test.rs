use laches::autostart::{autostart_step, monitor_arguments, parse_toggle, AutostartStep};
use laches::config::{set_store_path, show_config, summarise_machine};
use laches::mode::set_mode;
use laches::process::Process;
use laches::process_list::ListMode;
use laches::store::LachesStore;

#[test]
fn test_show_config() {
    let store = LachesStore::default();

    let summary = show_config(&store);
    assert!(summary.autostart);
    assert_eq!(summary.update_interval, 5);
    assert_eq!(summary.filter_mode, "none");
    assert!(summary.machines.is_empty());
}

#[test]
fn test_set_store_path_guide() {
    let result = set_store_path("/tmp/store", "/home/user/Dropbox/laches");
    assert!(result.is_ok());
}

#[test]
fn test_show_config_sums_up_machines() {
    let mut store = LachesStore::default();
    store.process_list_options.mode = ListMode::Whitelist;
    let mut a = Process::new_on("a".to_string(), "2024-01-01".to_string());
    a.add_time_on("2024-01-01", 3600 + 59);
    let mut b = Process::new_on("b".to_string(), "2024-01-01".to_string());
    b.add_time_on("2024-01-02", 2 * 3600 + 61);
    store.machine_data.insert("first".to_string(), vec![a, b]);
    store.machine_data.insert("second".to_string(), Vec::new());

    let summary = show_config(&store);
    assert_eq!(summary.filter_mode, "whitelist");
    assert_eq!(summary.machines.len(), 2);
    assert_eq!(summary.machines[0].machine_id, "first");
    assert_eq!(summary.machines[0].processes, 2);
    assert_eq!(summary.machines[0].hours, 3);
    assert_eq!(summary.machines[0].minutes, 2);
    assert_eq!(summary.machines[1].machine_id, "second");
    assert_eq!(summary.machines[1].processes, 0);
    assert_eq!(summary.machines[1].hours, 0);
    assert_eq!(summary.machines[1].minutes, 0);

    let alone = summarise_machine("x", &Vec::new());
    assert_eq!(alone.machine_id, "x");
}

#[test]
fn test_set_mode() {
    let mut store = LachesStore::default();
    assert!(set_mode("whitelist", &mut store).is_ok());
    assert_eq!(store.process_list_options.mode, ListMode::Whitelist);
    assert!(set_mode("blacklist", &mut store).is_ok());
    assert_eq!(store.process_list_options.mode, ListMode::Blacklist);
    let error = set_mode("Default", &mut store).unwrap_err();
    assert_eq!(
        error.to_string(),
        "error: no match found for mode: 'Default'"
    );
    assert_eq!(store.process_list_options.mode, ListMode::Blacklist);
    assert!(set_mode("default", &mut store).is_ok());
    assert_eq!(store.process_list_options.mode, ListMode::Default);
}

#[test]
fn test_autostart_decisions() {
    assert_eq!(parse_toggle("yes").unwrap(), true);
    assert_eq!(parse_toggle("no").unwrap(), false);
    assert_eq!(
        parse_toggle("on").unwrap_err().to_string(),
        "error: invalid option for autostart. Use 'yes' or 'no'."
    );
    assert!(parse_toggle("Yes").is_err());
    assert!(parse_toggle("").is_err());
    assert_eq!(autostart_step(true, false), AutostartStep::Enable);
    assert_eq!(autostart_step(true, true), AutostartStep::AlreadyEnabled);
    assert_eq!(autostart_step(false, true), AutostartStep::Disable);
    assert_eq!(autostart_step(false, false), AutostartStep::AlreadyDisabled);

    let mut store = LachesStore::default();
    store.update_interval = 30;
    assert_eq!(
        monitor_arguments(&store, "/cfg/store.json"),
        vec!["30".to_string(), "/cfg/store.json".to_string()]
    );
}
