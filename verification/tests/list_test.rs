use laches::list::{
    insert_row, list_processes, mode_lets_through, report_on, summarise, usage_to_display,
    validate_window, ProcessStats, ReportRow,
};
use laches::process::Process;
use laches::process_list::ListMode;
use laches::store::LachesStore;

fn process_with(title: &str, entries: &[(&str, u64)], tags: &[&str]) -> Process {
    let mut process = Process::new_on(title.to_string(), "2024-01-10".to_string());
    for (date, seconds) in entries {
        process.daily_usage.insert(date.to_string(), *seconds);
    }
    for tag in tags {
        process.tags.push(tag.to_string());
    }
    process
}

fn sample_store() -> LachesStore {
    let mut store = LachesStore::default();
    store.machine_data.insert(
        "A".to_string(),
        vec![
            process_with(
                "chrome.exe",
                &[("2024-01-01", 100), ("2024-01-02", 200)],
                &["web"],
            ),
            process_with("code.exe", &[("2024-01-02", 300)], &["work", "dev"]),
            process_with("idle.exe", &[], &["work"]),
            process_with("notes", &[("2024-01-01", 300)], &[]),
        ],
    );
    store.machine_data.insert(
        "B".to_string(),
        vec![process_with("chrome.exe", &[("2024-01-02", 900)], &[])],
    );
    store
}

fn titles(rows: &[ReportRow]) -> Vec<&str> {
    rows.iter().map(|r| r.stats.title.as_str()).collect()
}

#[test]
fn test_report_total_usage_ranked() {
    let store = sample_store();
    let report = report_on(&store, "A", None, false, None, false, "2024-01-02");
    // Equal usage keeps the order in which the processes were met.
    assert_eq!(titles(&report.rows), vec!["chrome.exe", "code.exe", "notes"]);
    assert_eq!(report.rows[0].display_usage, 300);
    assert_eq!(report.max_usage, 300);
    assert_eq!(report.total_usage, 900);
    assert_eq!(report.total_processes, 3);
    assert_eq!(report.average_usage, 300);
    assert_eq!(report.total_active_days, 4);
    assert_eq!(report.rows[0].stats.active_days, 2);
    assert_eq!(report.rows[0].stats.avg_per_day, 150);
    assert_eq!(report.rows[0].stats.today_usage, 200);
    assert_eq!(report.rows[0].stats.total_usage, 300);
    assert_eq!(report.rows[0].stats.tags, vec!["web".to_string()]);
}

#[test]
fn test_report_today_only_and_date() {
    let store = sample_store();
    let today = report_on(&store, "A", None, true, None, false, "2024-01-02");
    assert_eq!(titles(&today.rows), vec!["code.exe", "chrome.exe"]);
    assert_eq!(today.rows[1].display_usage, 200);
    assert_eq!(today.average_usage, 250);

    let on_date = report_on(&store, "A", None, false, Some("2024-01-01"), false, "2024-01-02");
    assert_eq!(titles(&on_date.rows), vec!["notes", "chrome.exe"]);

    // A date takes precedence over today-only.
    let both = report_on(&store, "A", None, true, Some("2024-01-01"), false, "2024-01-02");
    assert_eq!(titles(&both.rows), vec!["notes", "chrome.exe"]);
    assert_eq!(both.rows[1].display_usage, 100);

    let nothing = report_on(&store, "A", None, false, Some("2023-01-01"), false, "2024-01-02");
    assert!(nothing.rows.is_empty());
    assert_eq!(nothing.max_usage, 1);
    assert_eq!(nothing.total_usage, 0);
    assert_eq!(nothing.average_usage, 0);
    assert_eq!(nothing.total_processes, 0);
}

#[test]
fn test_report_all_machines_keeps_titles_apart() {
    let store = sample_store();
    let report = report_on(&store, "A", None, false, None, true, "2024-01-02");
    assert_eq!(
        titles(&report.rows),
        vec!["chrome.exe", "chrome.exe", "code.exe", "notes"]
    );
    assert_eq!(report.rows[0].display_usage, 900);
    assert_eq!(report.rows[1].display_usage, 300);
    assert_eq!(report.max_usage, 900);

    let unknown = report_on(&store, "nowhere", None, false, None, false, "2024-01-02");
    assert!(unknown.rows.is_empty());
}

#[test]
fn test_report_tag_filter_is_exact() {
    let store = sample_store();
    let work = report_on(&store, "A", Some("work"), false, None, false, "2024-01-02");
    assert_eq!(titles(&work.rows), vec!["code.exe"]);
    let upper = report_on(&store, "A", Some("Work"), false, None, false, "2024-01-02");
    assert!(upper.rows.is_empty());
    let part = report_on(&store, "A", Some("wor"), false, None, false, "2024-01-02");
    assert!(part.rows.is_empty());
}

#[test]
fn test_report_modes() {
    let mut store = sample_store();
    store.process_list_options.mode = ListMode::Blacklist;
    store.process_list_options.blacklist = Some(vec!["chrome.exe".to_string()]);
    let report = report_on(&store, "A", None, false, None, false, "2024-01-02");
    assert_eq!(titles(&report.rows), vec!["code.exe", "notes"]);

    store.process_list_options.blacklist = None;
    let report = report_on(&store, "A", None, false, None, false, "2024-01-02");
    assert_eq!(report.rows.len(), 3);

    store.process_list_options.mode = ListMode::Whitelist;
    let report = report_on(&store, "A", None, false, None, false, "2024-01-02");
    assert!(report.rows.is_empty());

    store.process_list_options.whitelist = Some(vec![r".*\.exe$".to_string()]);
    let report = report_on(&store, "A", None, false, None, false, "2024-01-02");
    assert_eq!(titles(&report.rows), vec!["chrome.exe", "code.exe"]);

    // The blacklist is not read in whitelist mode, nor any list in default mode.
    store.process_list_options.blacklist = Some(vec!["code.exe".to_string()]);
    let report = report_on(&store, "A", None, false, None, false, "2024-01-02");
    assert_eq!(report.rows.len(), 2);
    store.process_list_options.mode = ListMode::Default;
    let report = report_on(&store, "A", None, false, None, false, "2024-01-02");
    assert_eq!(report.rows.len(), 3);
}

#[test]
fn test_scenario_blacklist_mode() {
    let mut store = LachesStore::default();
    store.process_list_options.mode = ListMode::Blacklist;
    store.process_list_options.blacklist = Some(vec!["chrome.exe".to_string()]);
    store.machine_data.insert(
        "A".to_string(),
        vec![
            process_with("chrome.exe", &[("2024-01-01", 10)], &[]),
            process_with("code.exe", &[("2024-01-01", 20)], &[]),
        ],
    );
    let report = report_on(&store, "A", None, false, None, false, "2024-01-01");
    assert_eq!(titles(&report.rows), vec!["code.exe"]);
    assert!(!mode_lets_through(&store.process_list_options, "chrome.exe"));
    assert!(mode_lets_through(&store.process_list_options, "code.exe"));
}

#[test]
fn test_list_processes_total_does_not_depend_on_today() {
    let store = sample_store();
    let report = list_processes(&store, "A", None, false, None, false);
    assert_eq!(titles(&report.rows), vec!["chrome.exe", "code.exe", "notes"]);
    assert_eq!(report.total_usage, 900);
    let today = list_processes(&store, "A", None, true, None, false);
    assert!(today.rows.is_empty());
}

#[test]
fn test_process_stats_and_display_usage() {
    let process = process_with("p", &[("2024-01-01", 10), ("2024-01-02", 5)], &["t"]);
    let stats = ProcessStats::from_process(&process, "2024-01-02");
    assert_eq!(stats.title, "p");
    assert_eq!(stats.today_usage, 5);
    assert_eq!(stats.total_usage, 15);
    assert_eq!(stats.active_days, 2);
    assert_eq!(stats.avg_per_day, 7);
    assert_eq!(stats.get_display_usage(Some(("2024-01-01", 10)), true), 10);
    assert_eq!(stats.get_display_usage(None, true), 5);
    assert_eq!(stats.get_display_usage(None, false), 15);

    let empty = process_with("e", &[], &[]);
    let stats = ProcessStats::from_process(&empty, "2024-01-02");
    assert_eq!(stats.avg_per_day, 0);
    assert_eq!(usage_to_display(&process, true, None, "2024-01-01"), 10);
    assert_eq!(usage_to_display(&process, true, Some("2024-01-02"), "2024-01-01"), 5);
    assert_eq!(usage_to_display(&process, false, None, "2024-01-01"), 15);
}

#[test]
fn test_insert_row_and_summarise() {
    let row = |title: &str, usage: u64| ReportRow {
        stats: ProcessStats {
            title: title.to_string(),
            today_usage: 0,
            total_usage: usage,
            active_days: 1,
            avg_per_day: usage,
            tags: Vec::new(),
        },
        display_usage: usage,
    };
    let mut rows = Vec::new();
    insert_row(&mut rows, row("a", 5));
    insert_row(&mut rows, row("b", 9));
    insert_row(&mut rows, row("c", 5));
    insert_row(&mut rows, row("d", 1));
    insert_row(&mut rows, row("e", 9));
    assert_eq!(titles(&rows), vec!["b", "e", "a", "c", "d"]);
    let report = summarise(rows);
    assert_eq!(report.max_usage, 9);
    assert_eq!(report.total_usage, 29);
    assert_eq!(report.average_usage, 5);
    assert_eq!(report.total_active_days, 5);

    let big = summarise(vec![row("x", u64::MAX), row("y", u64::MAX)]);
    assert_eq!(big.total_usage, 2 * (u64::MAX as u128));
    assert_eq!(big.average_usage, u64::MAX);
}

#[test]
fn test_validate_window_refuses_today_and_date_together() {
    assert!(validate_window(false, None).is_ok());
    assert!(validate_window(true, None).is_ok());
    assert!(validate_window(false, Some("2024-01-01")).is_ok());
    assert_eq!(
        validate_window(true, Some("2024-01-01"))
            .unwrap_err()
            .to_string(),
        "error: cannot specify both --today and --date"
    );
}
