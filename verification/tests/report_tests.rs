use auto_backup::archive::{archive_prefix, backup_created_message, entry_action, EntryAction};
use auto_backup::config::Config;
use auto_backup::context::{format_header, validate_backup_paths, validate_path, BackupContext};
use auto_backup::run::settle_run;

fn context(sources: &[&str]) -> BackupContext {
    BackupContext {
        config: Config {
            source_folder: None,
            source_folders: sources.iter().map(|s| s.to_string()).collect(),
            destination_path: "/backups".to_string(),
            base_name: "Backup".to_string(),
            max_backups: 3,
            compression_level: Some(5),
        },
        log_path: "/var/log/backup.log".to_string(),
        timestamp: "20260105_000000".to_string(),
    }
}

#[test]
fn header_for_a_single_source() {
    assert_eq!(
        format_header(&context(&["/home/docs"])),
        vec![
            "Auto-Backup starting...",
            "",
            "Log file: /var/log/backup.log",
            "",
            "Source: /home/docs",
            "Destination: /backups",
            "Backup filename: Backup_20260105_000000.zip",
            "Keeping the last 3 backups",
            "",
        ]
    );
}

#[test]
fn header_for_several_sources() {
    let header = format_header(&context(&["/a", "/b"]));
    assert_eq!(
        header[4..8].to_vec(),
        vec!["Sources (2 folders):", "  - /a", "  - /b", "Destination: /backups"]
    );
    assert_eq!(header.len(), 11);
}

#[test]
fn header_without_sources() {
    let header = format_header(&context(&[]));
    assert_eq!(header[4], "Sources (0 folders):");
    assert_eq!(header[5], "Destination: /backups");
}

#[test]
fn missing_path_is_reported_with_its_kind() {
    assert_eq!(validate_path(true, "/x", "Source folder"), Ok(()));
    assert_eq!(
        validate_path(false, "/x", "Source folder"),
        Err("Source folder not found at /x".to_string())
    );
}

#[test]
fn path_validation_order() {
    assert_eq!(
        validate_backup_paths(&context(&[]), &vec![], true),
        Err("No source folders configured".to_string())
    );
    assert_eq!(
        validate_backup_paths(&context(&["/a", "/b", "/c"]), &vec![true, false, false], false),
        Err("Source folder not found at /b".to_string())
    );
    assert_eq!(
        validate_backup_paths(&context(&["/a"]), &vec![true], false),
        Err("Destination folder not found at /backups".to_string())
    );
    assert_eq!(validate_backup_paths(&context(&["/a", "/b"]), &vec![true, true], true), Ok(()));
}

#[test]
fn archive_layout_decisions() {
    assert_eq!(archive_prefix(1, Some("docs")), "");
    assert_eq!(archive_prefix(2, Some("docs")), "docs");
    assert_eq!(archive_prefix(2, None), "backup_source");
    assert_eq!(entry_action(true, true), EntryAction::Skip);
    assert_eq!(entry_action(false, true), EntryAction::AddFile);
    assert_eq!(entry_action(false, false), EntryAction::AddDirectory);
    assert_eq!(EntryAction::AddFile.file_count(), 1);
    assert_eq!(EntryAction::AddDirectory.file_count(), 0);
    assert_eq!(EntryAction::Skip.file_count(), 0);
    assert_eq!(backup_created_message("/b/x.zip", 12), "Backup created: /b/x.zip (12 files)");
}

#[test]
fn run_succeeds_only_when_both_steps_do() {
    let ok = settle_run(Ok(()), Ok(()));
    assert!(ok.announce_success);
    assert_eq!(ok.log_lines, vec!["SUCCESS: Backup created", "Backup cleanup completed"]);
    assert_eq!(ok.result, Ok(()));

    let archive_failed = settle_run(Err("disk full".to_string()), Ok(()));
    assert!(!archive_failed.announce_success);
    assert_eq!(archive_failed.log_lines, vec!["Backup cleanup completed"]);
    assert_eq!(archive_failed.result, Err("disk full".to_string()));

    let cleanup_failed = settle_run(Ok(()), Err("locked".to_string()));
    assert_eq!(
        cleanup_failed.log_lines,
        vec!["SUCCESS: Backup created", "Cleanup failed after successful backup: locked"]
    );
    assert_eq!(
        cleanup_failed.result,
        Err("Backup created successfully, but cleanup failed: locked".to_string())
    );

    let both_failed = settle_run(Err("disk full".to_string()), Err("locked".to_string()));
    assert_eq!(both_failed.log_lines, vec!["Cleanup failed after backup error: locked"]);
    assert_eq!(both_failed.result, Err("disk full".to_string()));
}
