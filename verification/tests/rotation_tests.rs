use auto_backup::rotation::{cleanup_report, files_to_delete, sort_by_modified_time, time_at_most};
use std::path::PathBuf;

#[test]
fn test_no_delete_when_below_limit() {
    let files: Vec<PathBuf> = vec![PathBuf::from("a.zip"), PathBuf::from("b.zip")];
    let max_backups = 3;

    // files.len() (2) <= max_backups (3), so nothing should be deleted
    assert!(files.len() <= max_backups);
    // files_to_delete should return empty when files.len() == max_backups
    let to_delete = files_to_delete(files.clone(), max_backups);
    assert_eq!(to_delete.len(), 0);
}

#[test]
fn files_to_delete_skips_the_kept_prefix() {
    let files = vec!["c", "b", "a"];
    assert_eq!(files_to_delete(files.clone(), 2), vec!["a"]);
    assert_eq!(files_to_delete(files.clone(), 0), vec!["c", "b", "a"]);
    assert_eq!(files_to_delete(files.clone(), 3), Vec::<&str>::new());
}

#[test]
fn sort_puts_newest_first() {
    let order = sort_by_modified_time(&vec![Some(100), Some(300), Some(200)]);
    assert_eq!(order, vec![1, 2, 0]);
}

#[test]
fn sort_orders_equal_times_in_reverse_input_order_and_unknown_last() {
    let order = sort_by_modified_time(&vec![Some(5), None, Some(5), Some(-7)]);
    assert_eq!(order, vec![2, 0, 3, 1]);
    assert_eq!(sort_by_modified_time(&vec![]), Vec::<usize>::new());
}

#[test]
fn time_comparison_treats_unknown_as_oldest() {
    assert!(time_at_most(None, Some(i128::MIN)));
    assert!(!time_at_most(Some(0), None));
    assert!(time_at_most(Some(3), Some(3)));
    assert!(!time_at_most(Some(4), Some(3)));
}

#[test]
fn rotation_keeps_the_newest_backups() {
    // five backups written one after the other, listed in directory order
    let names = vec!["B_3.zip", "B_1.zip", "B_5.zip", "B_2.zip", "B_4.zip"];
    let modified = vec![Some(3), Some(1), Some(5), Some(2), Some(4)];
    let order = sort_by_modified_time(&modified);
    let sorted: Vec<&str> = order.iter().map(|&i| names[i]).collect();
    assert_eq!(sorted, vec!["B_5.zip", "B_4.zip", "B_3.zip", "B_2.zip", "B_1.zip"]);
    let deleted = files_to_delete(sorted, 3);
    assert_eq!(deleted, vec!["B_2.zip", "B_1.zip"]);
}

#[test]
fn cleanup_report_when_over_the_limit() {
    assert_eq!(
        cleanup_report(5, 3),
        vec!["Found 5 backup files".to_string(), "Deleting 2 old backup(s)...".to_string()]
    );
}

#[test]
fn cleanup_report_when_within_the_limit() {
    assert_eq!(
        cleanup_report(3, 3),
        vec![
            "Found 3 backup files".to_string(),
            "No cleanup needed. Have 3 backups, keeping 3".to_string()
        ]
    );
    assert_eq!(
        cleanup_report(0, 30),
        vec![
            "Found 0 backup files".to_string(),
            "No cleanup needed. Have 0 backups, keeping 30".to_string()
        ]
    );
}
