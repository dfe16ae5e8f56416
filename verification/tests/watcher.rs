use sentinel_wallpaper::watcher::{
    config_file_changed, extract_css_vars, newest_mtime, AssetWatcher, EditableEntry,
    EditableValue,
};

#[test]
fn debounce_coalesces_rapid_writes_into_one_reload() {
    let mut w = AssetWatcher::new(400);
    let dir = "C:\\assets\\scene";
    // Baseline: first sight of the directory never fires.
    assert!(!w.observe(dir, 1, 0));
    // Three writes arriving 50ms apart, observed by fast polls.
    assert!(!w.observe(dir, 2, 1000));
    assert!(!w.observe(dir, 3, 1050));
    assert!(!w.observe(dir, 4, 1100));
    // Still inside the debounce window measured from the last write.
    assert!(!w.observe(dir, 4, 1400));
    // The window has lain quiet for the full 400ms: exactly one reload,
    // at least 400ms after the last write.
    assert!(w.observe(dir, 4, 1500));
    // And it does not fire again while nothing changes.
    assert!(!w.observe(dir, 4, 1600));
    assert!(!w.observe(dir, 4, 2500));
}

#[test]
fn each_directory_debounces_independently() {
    let mut w = AssetWatcher::new(400);
    assert!(!w.observe("a", 1, 0));
    assert!(!w.observe("b", 1, 0));
    assert!(!w.observe("a", 2, 100));
    assert!(!w.observe("b", 1, 100));
    assert!(w.observe("a", 2, 600));
    assert!(!w.observe("b", 1, 600));
}

#[test]
fn retain_drops_stale_directories() {
    let mut w = AssetWatcher::new(400);
    assert!(!w.observe("a", 1, 0));
    assert!(!w.observe("b", 1, 0));
    w.retain_dirs(&vec!["b".to_string()]);
    assert_eq!(w.entries.len(), 1);
    assert_eq!(w.entries[0].dir, "b");
}

#[test]
fn newest_mtime_is_the_maximum() {
    assert_eq!(newest_mtime(&Vec::new()), None);
    assert_eq!(newest_mtime(&vec![3, 9, 1]), Some(9));
    assert_eq!(newest_mtime(&vec![5]), Some(5));
}

#[test]
fn config_change_needs_a_strictly_newer_time() {
    assert!(config_file_changed(Some(10), Some(11)));
    assert!(!config_file_changed(Some(10), Some(10)));
    assert!(!config_file_changed(Some(10), Some(9)));
    assert!(config_file_changed(None, Some(1)));
    assert!(!config_file_changed(Some(10), None));
    assert!(!config_file_changed(None, None));
}

#[test]
fn editable_extraction_collects_direct_and_grouped_variables() {
    let entries = vec![
        EditableEntry {
            own: EditableValue {
                variable: Some("--speed".to_string()),
                value: Some("2".to_string()),
            },
            children: Vec::new(),
        },
        EditableEntry {
            own: EditableValue { variable: None, value: None },
            children: vec![
                EditableValue {
                    variable: Some("--hue".to_string()),
                    value: Some("120".to_string()),
                },
                EditableValue { variable: None, value: Some("ignored".to_string()) },
                EditableValue {
                    variable: Some("--speed".to_string()),
                    value: Some("5".to_string()),
                },
            ],
        },
    ];
    let vars = extract_css_vars(&entries);
    // Later values overwrite in place; order of first occurrence kept.
    assert_eq!(
        vars,
        vec![
            ("--speed".to_string(), "5".to_string()),
            ("--hue".to_string(), "120".to_string()),
        ]
    );
    // An entry that names a variable without a value contributes nothing.
    let partial = vec![EditableEntry {
        own: EditableValue { variable: Some("--x".to_string()), value: None },
        children: Vec::new(),
    }];
    assert!(extract_css_vars(&partial).is_empty());
}
