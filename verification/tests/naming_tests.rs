use auto_backup::naming::{generate_zip_name, is_backup_file_name, select_backup_files};
use auto_backup::text::decimal;

#[test]
fn zip_name_joins_base_and_timestamp() {
    assert_eq!(generate_zip_name("Backup", "20260105_000000"), "Backup_20260105_000000.zip");
    assert_eq!(generate_zip_name("", ""), "_.zip");
}

#[test]
fn backup_names_need_prefix_and_zip_suffix() {
    assert!(is_backup_file_name("Backup_20260101_000000.zip", "Backup"));
    assert!(!is_backup_file_name("other_file.txt", "Backup"));
    assert!(!is_backup_file_name("NotBackup_20260103_000000.zip", "Backup"));
    assert!(!is_backup_file_name("Backup20260103.zip", "Backup"));
    assert!(!is_backup_file_name("Backup_20260103.ZIP", "Backup"));
    assert!(is_backup_file_name("Backup_.zip", "Backup"));
    assert!(!is_backup_file_name("Back", "Backup"));
    assert!(is_backup_file_name("Sauvegarde_été.zip", "Sauvegarde"));
}

#[test]
fn generated_names_are_recognised() {
    for (base, ts) in [("Backup", "20260101_000000"), ("", "x"), ("a.zip", ""), ("ß", "é")] {
        let name = generate_zip_name(base, ts);
        assert!(is_backup_file_name(&name, base));
    }
}

#[test]
fn selection_finds_backups_among_directory_entries() {
    let names = vec![
        Some("Backup_20260101_000000.zip".to_string()),
        Some("Backup_20260102_000000.zip".to_string()),
        Some("other_file.txt".to_string()),
        None,
        Some("NotBackup_20260103_000000.zip".to_string()),
        Some("Backup_20260104_000000.zip".to_string()),
    ];
    assert_eq!(select_backup_files(&names, "Backup"), vec![0, 1, 5]);
    assert_eq!(select_backup_files(&vec![], "Backup"), Vec::<usize>::new());
}

#[test]
fn decimal_matches_standard_formatting() {
    for n in [0usize, 1, 9, 10, 30, 99, 100, 1234567, usize::MAX] {
        assert_eq!(decimal(n), n.to_string());
    }
}
