use laches::process::Process;
use laches::store::LachesStore;
use laches::tag::{add_tags, handle_tag_command, remove_tags, TagReport};
use laches::text::split_tokens;

fn test_hostname() -> String {
    "test-host".to_string()
}

#[test]
fn test_handle_tag_command_add_single_tag() {
    let mut store = LachesStore::default();
    let hostname = test_hostname();
    let mut process = Process::new("test_process".to_string());
    process.add_time(100);
    store.machine_data.insert(hostname.clone(), vec![process]);

    let result =
        handle_tag_command(&mut store, &hostname, "test_process", Some("work"), None, false);
    assert!(result.is_ok());

    let process = &store.machine_data.get(&hostname).unwrap()[0];
    assert_eq!(process.tags.len(), 1);
    assert_eq!(process.tags[0], "work");
}

#[test]
fn test_handle_tag_command_add_multiple_tags() {
    let mut store = LachesStore::default();
    let hostname = test_hostname();
    let mut process = Process::new("test_process".to_string());
    process.add_time(100);
    store.machine_data.insert(hostname.clone(), vec![process]);

    let result = handle_tag_command(
        &mut store,
        &hostname,
        "test_process",
        Some("work,personal,dev"),
        None,
        false,
    );
    assert!(result.is_ok());

    let process = &store.machine_data.get(&hostname).unwrap()[0];
    assert_eq!(process.tags.len(), 3);
    assert!(process.tags.contains(&"work".to_string()));
    assert!(process.tags.contains(&"personal".to_string()));
    assert!(process.tags.contains(&"dev".to_string()));
}

#[test]
fn test_handle_tag_command_add_tags_with_spaces() {
    let mut store = LachesStore::default();
    let hostname = test_hostname();
    let mut process = Process::new("test_process".to_string());
    process.add_time(100);
    store.machine_data.insert(hostname.clone(), vec![process]);

    let result = handle_tag_command(
        &mut store,
        &hostname,
        "test_process",
        Some("work , personal , dev"),
        None,
        false,
    );
    assert!(result.is_ok());

    let process = &store.machine_data.get(&hostname).unwrap()[0];
    assert_eq!(process.tags.len(), 3);
    assert!(process.tags.contains(&"work".to_string()));
    assert!(process.tags.contains(&"personal".to_string()));
    assert!(process.tags.contains(&"dev".to_string()));
}

#[test]
fn test_handle_tag_command_add_duplicate_tag() {
    let mut store = LachesStore::default();
    let hostname = test_hostname();
    let mut process = Process::new("test_process".to_string());
    process.tags.push("work".to_string());
    store.machine_data.insert(hostname.clone(), vec![process]);

    let result =
        handle_tag_command(&mut store, &hostname, "test_process", Some("work"), None, false);
    assert!(result.is_ok());

    let process = &store.machine_data.get(&hostname).unwrap()[0];
    assert_eq!(process.tags.len(), 1); // Should not add duplicate
    assert_eq!(process.tags[0], "work");
}

#[test]
fn test_handle_tag_command_remove_tag() {
    let mut store = LachesStore::default();
    let hostname = test_hostname();
    let mut process = Process::new("test_process".to_string());
    process.tags.push("work".to_string());
    process.tags.push("personal".to_string());
    store.machine_data.insert(hostname.clone(), vec![process]);

    let result =
        handle_tag_command(&mut store, &hostname, "test_process", None, Some("work"), false);
    assert!(result.is_ok());

    let process = &store.machine_data.get(&hostname).unwrap()[0];
    assert_eq!(process.tags.len(), 1);
    assert_eq!(process.tags[0], "personal");
}

#[test]
fn test_handle_tag_command_remove_multiple_tags() {
    let mut store = LachesStore::default();
    let hostname = test_hostname();
    let mut process = Process::new("test_process".to_string());
    process.tags.push("work".to_string());
    process.tags.push("personal".to_string());
    process.tags.push("dev".to_string());
    store.machine_data.insert(hostname.clone(), vec![process]);

    let result = handle_tag_command(
        &mut store,
        &hostname,
        "test_process",
        None,
        Some("work,dev"),
        false,
    );
    assert!(result.is_ok());

    let process = &store.machine_data.get(&hostname).unwrap()[0];
    assert_eq!(process.tags.len(), 1);
    assert_eq!(process.tags[0], "personal");
}

#[test]
fn test_handle_tag_command_remove_nonexistent_tag() {
    let mut store = LachesStore::default();
    let hostname = test_hostname();
    let mut process = Process::new("test_process".to_string());
    process.tags.push("work".to_string());
    store.machine_data.insert(hostname.clone(), vec![process]);

    let result = handle_tag_command(
        &mut store,
        &hostname,
        "test_process",
        None,
        Some("nonexistent"),
        false,
    );
    assert!(result.is_ok());

    let process = &store.machine_data.get(&hostname).unwrap()[0];
    assert_eq!(process.tags.len(), 1); // Tag unchanged
    assert_eq!(process.tags[0], "work");
}

#[test]
fn test_handle_tag_command_add_and_remove_simultaneously() {
    let mut store = LachesStore::default();
    let hostname = test_hostname();
    let mut process = Process::new("test_process".to_string());
    process.tags.push("old_tag".to_string());
    store.machine_data.insert(hostname.clone(), vec![process]);

    let result = handle_tag_command(
        &mut store,
        &hostname,
        "test_process",
        Some("new_tag"),
        Some("old_tag"),
        false,
    );
    assert!(result.is_ok());

    let process = &store.machine_data.get(&hostname).unwrap()[0];
    assert_eq!(process.tags.len(), 1);
    assert_eq!(process.tags[0], "new_tag");
}

#[test]
fn test_handle_tag_command_process_not_found() {
    let mut store = LachesStore::default();

    let result = handle_tag_command(
        &mut store,
        &test_hostname(),
        "nonexistent_process",
        Some("work"),
        None,
        false,
    );
    assert!(result.is_err());
    assert!(result
        .unwrap_err()
        .to_string()
        .contains("process 'nonexistent_process' not found"));
}

#[test]
fn test_handle_tag_command_empty_tag_string() {
    let mut store = LachesStore::default();
    let hostname = test_hostname();
    let process = Process::new("test_process".to_string());
    store.machine_data.insert(hostname.clone(), vec![process]);

    let result = handle_tag_command(&mut store, &hostname, "test_process", Some(""), None, false);
    assert!(result.is_ok());

    let process = &store.machine_data.get(&hostname).unwrap()[0];
    assert_eq!(process.tags.len(), 0); // Empty strings filtered out
}

#[test]
fn test_handle_tag_command_list_tags_empty() {
    let mut store = LachesStore::default();
    let hostname = test_hostname();
    let process = Process::new("test_process".to_string());
    store.machine_data.insert(hostname.clone(), vec![process]);

    let result = handle_tag_command(&mut store, &hostname, "test_process", None, None, true);
    assert!(result.is_ok());
}

#[test]
fn test_handle_tag_command_list_tags_with_tags() {
    let mut store = LachesStore::default();
    let hostname = test_hostname();
    let mut process = Process::new("test_process".to_string());
    process.tags.push("work".to_string());
    process.tags.push("dev".to_string());
    store.machine_data.insert(hostname.clone(), vec![process]);

    let result = handle_tag_command(&mut store, &hostname, "test_process", None, None, true);
    assert!(result.is_ok());
}

#[test]
fn test_handle_tag_command_tags_with_commas_and_spaces() {
    let mut store = LachesStore::default();
    let hostname = test_hostname();
    let process = Process::new("test_process".to_string());
    store.machine_data.insert(hostname.clone(), vec![process]);

    let result = handle_tag_command(
        &mut store,
        &hostname,
        "test_process",
        Some(" , tag1 ,, tag2 , "),
        None,
        false,
    );
    assert!(result.is_ok());

    let process = &store.machine_data.get(&hostname).unwrap()[0];
    assert_eq!(process.tags.len(), 2);
    assert!(process.tags.contains(&"tag1".to_string()));
    assert!(process.tags.contains(&"tag2".to_string()));
}

#[test]
fn test_handle_tag_command_listing_changes_nothing() {
    let mut store = LachesStore::default();
    let hostname = test_hostname();
    let mut process = Process::new("test_process".to_string());
    process.tags.push("work".to_string());
    store.machine_data.insert(hostname.clone(), vec![process]);

    let result = handle_tag_command(
        &mut store,
        &hostname,
        "test_process",
        Some("new"),
        Some("work"),
        true,
    );
    match result {
        Ok(TagReport::Listed(tags)) => assert_eq!(tags, vec!["work".to_string()]),
        other => panic!("unexpected report: {:?}", other),
    }
    let process = &store.machine_data.get(&hostname).unwrap()[0];
    assert_eq!(process.tags, vec!["work".to_string()]);
}

#[test]
fn test_handle_tag_command_reports_changes() {
    let mut store = LachesStore::default();
    let hostname = test_hostname();
    let mut process = Process::new("test_process".to_string());
    process.tags.push("work".to_string());
    store.machine_data.insert(hostname.clone(), vec![process]);

    let result = handle_tag_command(
        &mut store,
        &hostname,
        "test_process",
        Some("work, dev, dev, ops"),
        Some("ops, missing"),
        false,
    );
    match result {
        Ok(TagReport::Changed { added, removed }) => {
            assert_eq!(added, vec!["dev".to_string(), "ops".to_string()]);
            assert_eq!(removed, vec!["ops".to_string()]);
        }
        other => panic!("unexpected report: {:?}", other),
    }
    let process = &store.machine_data.get(&hostname).unwrap()[0];
    assert_eq!(process.tags, vec!["work".to_string(), "dev".to_string()]);
}

#[test]
fn test_handle_tag_command_title_is_exact() {
    let mut store = LachesStore::default();
    let hostname = test_hostname();
    store.machine_data.insert(
        hostname.clone(),
        vec![Process::new("Test_Process".to_string())],
    );
    let result = handle_tag_command(&mut store, &hostname, "test_process", Some("x"), None, false);
    assert_eq!(
        result.unwrap_err().to_string(),
        "error: process 'test_process' not found"
    );
    // Another machine's process is not found either.
    let other = handle_tag_command(&mut store, "elsewhere", "Test_Process", Some("x"), None, false);
    assert!(other.is_err());
}

#[test]
fn test_split_tokens() {
    assert_eq!(split_tokens(""), Vec::<String>::new());
    assert_eq!(split_tokens(",,,"), Vec::<String>::new());
    assert_eq!(split_tokens("a"), vec!["a".to_string()]);
    assert_eq!(
        split_tokens(" a b ,c,\t d\n,"),
        vec!["a b".to_string(), "c".to_string(), "d".to_string()]
    );
    assert_eq!(
        split_tokens("\u{a0}wide\u{3000},\u{2003}x"),
        vec!["wide".to_string(), "x".to_string()]
    );
}

#[test]
fn test_add_and_remove_tags_keep_order() {
    let mut tags = vec!["a".to_string(), "b".to_string()];
    let added = add_tags(
        &mut tags,
        &vec!["c".to_string(), "a".to_string(), "c".to_string()],
    );
    assert_eq!(added, vec!["c".to_string()]);
    assert_eq!(tags, vec!["a".to_string(), "b".to_string(), "c".to_string()]);
    let removed = remove_tags(&mut tags, &vec!["b".to_string(), "z".to_string()]);
    assert_eq!(removed, vec!["b".to_string()]);
    assert_eq!(tags, vec!["a".to_string(), "c".to_string()]);
}
