use auto_backup::config::Config;

fn config(single: Option<&str>, many: &[&str]) -> Config {
    Config {
        source_folder: single.map(|s| s.to_string()),
        source_folders: many.iter().map(|s| s.to_string()).collect(),
        destination_path: "D".to_string(),
        base_name: "Backup".to_string(),
        max_backups: 3,
        compression_level: None,
    }
}

#[test]
fn source_list_takes_precedence() {
    let c = config(Some("old"), &["a", "b"]);
    assert_eq!(c.get_source_folders(), vec!["a".to_string(), "b".to_string()]);
    assert!(c.has_conflicting_sources());
}

#[test]
fn single_source_is_used_when_list_is_empty() {
    let c = config(Some("old"), &[]);
    assert_eq!(c.get_source_folders(), vec!["old".to_string()]);
    assert!(!c.has_conflicting_sources());
}

#[test]
fn no_sources_when_nothing_is_set() {
    let c = config(None, &[]);
    assert!(c.get_source_folders().is_empty());
    assert!(!c.has_conflicting_sources());
}

#[test]
fn compression_level_defaults_to_five() {
    let mut c = config(None, &[]);
    assert_eq!(c.effective_compression_level(), 5);
    c.compression_level = Some(9);
    assert_eq!(c.effective_compression_level(), 9);
    c.compression_level = Some(0);
    assert_eq!(c.effective_compression_level(), 0);
}

#[test]
fn default_config_values() {
    let c = Config::default();
    assert_eq!(c.source_folder, None);
    assert_eq!(c.source_folders, vec!["C:\\Users\\YourUsername\\Documents".to_string()]);
    assert_eq!(c.destination_path, "C:\\Users\\YourUsername\\OneDrive");
    assert_eq!(c.base_name, "Backup");
    assert_eq!(c.max_backups, 30);
    assert_eq!(c.compression_level, Some(5));
}
