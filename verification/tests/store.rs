use iprompt_store::error::StoreError;
use iprompt_store::layout::{
    app_dir_made, app_dir_under, backup_dir_in, backup_file_in, data_file_in, get_app_dir,
    get_data_file_path, StorePath,
};
use iprompt_store::store::{
    backup_result, create_backup, list_backups, plan_backup, read_data_file, write_data_file,
    BackupOutcome, DirListing, FileRead,
};
use std::path::PathBuf;

fn app_dir() -> StorePath {
    app_dir_under(Some(PathBuf::from("/home/alice/.local/share"))).unwrap()
}

fn names(list: &[&str]) -> Vec<String> {
    list.iter().map(|s| s.to_string()).collect()
}

#[test]
fn reading_a_file_never_written_gives_empty_text() {
    let text = read_data_file(FileRead::Missing).unwrap();
    assert_eq!(text, "");
}

#[test]
fn reading_gives_the_text_as_it_was_written() {
    let written = String::from("{\"prompts\": [\"héllo\", \"\\n\"]}\n");
    let text = read_data_file(FileRead::Text(written.clone())).unwrap();
    assert_eq!(text, written);
}

#[test]
fn reading_an_empty_file_gives_empty_text() {
    assert_eq!(read_data_file(FileRead::Text(String::new())).unwrap(), "");
}

#[test]
fn a_failed_read_is_an_io_error_with_the_cause() {
    let err = read_data_file(FileRead::Failed("permission denied".to_string())).unwrap_err();
    assert!(matches!(err, StoreError::Io(_)));
    assert!(!err.is_not_found());
    assert_eq!(err.message(), "Failed to read data file: permission denied");
}

#[test]
fn a_write_that_went_through_is_ok() {
    assert!(write_data_file(Ok(())).is_ok());
}

#[test]
fn a_failed_write_is_an_io_error_with_the_cause() {
    let err = write_data_file(Err("disk full".to_string())).unwrap_err();
    assert!(matches!(err, StoreError::Io(_)));
    assert_eq!(err.message(), "Failed to write data file: disk full");
}

#[test]
fn a_backup_before_any_write_is_not_found() {
    let dir = app_dir();
    let err = plan_backup(&dir, false, "20240101_100000").unwrap_err();
    assert!(matches!(err, StoreError::NotFound));
    assert!(err.is_not_found());
    assert_eq!(err.message(), "No data file to backup");
    let err = create_backup(&dir, false).unwrap_err();
    assert!(matches!(err, StoreError::NotFound));
}

#[test]
fn a_backup_copies_the_data_file_into_the_backups_folder() {
    let dir = app_dir();
    let plan = plan_backup(&dir, true, "20240101_100000").unwrap();
    assert_eq!(plan.source.root, PathBuf::from("/home/alice/.local/share"));
    assert_eq!(plan.source.segments, names(&["iPrompt", "iprompt-data.json"]));
    assert_eq!(plan.folder.root, PathBuf::from("/home/alice/.local/share"));
    assert_eq!(plan.folder.segments, names(&["iPrompt", "backups"]));
    assert_eq!(plan.target.root, PathBuf::from("/home/alice/.local/share"));
    assert_eq!(
        plan.target.segments,
        names(&["iPrompt", "backups", "iprompt-backup-20240101_100000.json"])
    );
}

#[test]
fn two_backups_in_one_second_share_a_target() {
    let dir = app_dir();
    let first = plan_backup(&dir, true, "20240101_100000").unwrap();
    let second = plan_backup(&dir, true, "20240101_100000").unwrap();
    assert_eq!(first.target.segments, second.target.segments);
}

#[test]
fn a_backup_taken_now_is_named_after_the_local_time() {
    let dir = app_dir();
    let plan = create_backup(&dir, true).unwrap();
    assert_eq!(plan.source.segments, names(&["iPrompt", "iprompt-data.json"]));
    assert_eq!(plan.folder.segments, names(&["iPrompt", "backups"]));
    assert_eq!(plan.target.segments.len(), 3);
    assert_eq!(plan.target.segments[0], "iPrompt");
    assert_eq!(plan.target.segments[1], "backups");
    let name = &plan.target.segments[2];
    assert!(iprompt_store::names::is_backup(name));
    let stamp = &name["iprompt-backup-".len()..name.len() - ".json".len()];
    assert_eq!(stamp.len(), 15);
    for (i, c) in stamp.chars().enumerate() {
        if i == 8 {
            assert_eq!(c, '_');
        } else {
            assert!(c.is_ascii_digit());
        }
    }
    let listed = list_backups(DirListing::Entries(vec![name.clone()])).unwrap();
    assert_eq!(listed, vec![name.clone()]);
}

#[test]
fn a_finished_backup_gives_its_place() {
    let dir = app_dir();
    let plan = plan_backup(&dir, true, "20240102_090000").unwrap();
    let place = backup_result(plan, BackupOutcome::Copied).unwrap();
    assert_eq!(place.root, PathBuf::from("/home/alice/.local/share"));
    assert_eq!(
        place.segments,
        names(&["iPrompt", "backups", "iprompt-backup-20240102_090000.json"])
    );
}

#[test]
fn a_backup_whose_folder_could_not_be_made_is_an_io_error() {
    let plan = plan_backup(&app_dir(), true, "20240102_090000").unwrap();
    let err = backup_result(plan, BackupOutcome::FolderFailed("read-only".to_string()))
        .unwrap_err();
    assert!(matches!(err, StoreError::Io(_)));
    assert_eq!(err.message(), "Failed to create backups directory: read-only");
}

#[test]
fn a_backup_whose_copy_failed_is_an_io_error() {
    let plan = plan_backup(&app_dir(), true, "20240102_090000").unwrap();
    let err = backup_result(plan, BackupOutcome::CopyFailed("no space".to_string())).unwrap_err();
    assert!(matches!(err, StoreError::Io(_)));
    assert_eq!(err.message(), "Failed to create backup: no space");
}

#[test]
fn listing_without_a_backups_folder_is_empty() {
    let listed = list_backups(DirListing::Missing).unwrap();
    assert!(listed.is_empty());
}

#[test]
fn listing_an_empty_folder_is_empty() {
    let listed = list_backups(DirListing::Entries(Vec::new())).unwrap();
    assert!(listed.is_empty());
}

#[test]
fn the_later_backup_is_listed_first() {
    let entries = names(&[
        "iprompt-backup-20240101_100000.json",
        "iprompt-backup-20240102_090000.json",
    ]);
    let listed = list_backups(DirListing::Entries(entries)).unwrap();
    assert_eq!(
        listed,
        names(&[
            "iprompt-backup-20240102_090000.json",
            "iprompt-backup-20240101_100000.json",
        ])
    );
    let entries = names(&[
        "iprompt-backup-20240102_090000.json",
        "iprompt-backup-20240101_100000.json",
    ]);
    let listed = list_backups(DirListing::Entries(entries)).unwrap();
    assert_eq!(
        listed,
        names(&[
            "iprompt-backup-20240102_090000.json",
            "iprompt-backup-20240101_100000.json",
        ])
    );
}

#[test]
fn entries_that_are_no_backups_are_passed_over() {
    let entries = names(&[
        "notes.txt",
        "iprompt-backup-20231231_235959.json",
        "iprompt-data.json",
        "iprompt-backup-20240101_000000.json.tmp",
        "old-iprompt-backup-20240101_000000.json",
        "iprompt-backup-.json",
        "iprompt-backup-20240101_000000.json",
        "iprompt-backup-",
        ".json",
        "",
        "IPROMPT-BACKUP-20240101_000000.JSON",
    ]);
    let listed = list_backups(DirListing::Entries(entries)).unwrap();
    assert_eq!(
        listed,
        names(&[
            "iprompt-backup-20240101_000000.json",
            "iprompt-backup-20231231_235959.json",
            "iprompt-backup-.json",
        ])
    );
}

#[test]
fn a_name_that_occurs_twice_is_listed_twice() {
    let entries = names(&[
        "iprompt-backup-20240101_100000.json",
        "iprompt-backup-20240103_100000.json",
        "iprompt-backup-20240101_100000.json",
    ]);
    let listed = list_backups(DirListing::Entries(entries)).unwrap();
    assert_eq!(
        listed,
        names(&[
            "iprompt-backup-20240103_100000.json",
            "iprompt-backup-20240101_100000.json",
            "iprompt-backup-20240101_100000.json",
        ])
    );
}

#[test]
fn the_listing_is_ordered_as_strings_are() {
    let entries = names(&[
        "iprompt-backup-b.json",
        "iprompt-backup-é.json",
        "iprompt-backup-a.json",
        "iprompt-backup-ab.json",
        "iprompt-backup-Z.json",
        "iprompt-backup-日本.json",
        "iprompt-backup-20240101_100000.json",
        "iprompt-backup-\u{10000}.json",
        "iprompt-backup-\u{ffff}.json",
        "iprompt-backup-a.json.json",
    ]);
    let mut expected = entries.clone();
    expected.sort();
    expected.reverse();
    let listed = list_backups(DirListing::Entries(entries)).unwrap();
    assert_eq!(listed, expected);
}

#[test]
fn a_folder_that_could_not_be_listed_is_an_io_error() {
    let err = list_backups(DirListing::Failed("not a directory".to_string())).unwrap_err();
    assert!(matches!(err, StoreError::Io(_)));
    assert_eq!(err.message(), "Failed to read backups directory: not a directory");
}

#[test]
fn the_app_folder_lies_under_the_data_directory() {
    let dir = app_dir_under(Some(PathBuf::from("/data"))).unwrap();
    assert_eq!(dir.root, PathBuf::from("/data"));
    assert_eq!(dir.segments, names(&["iPrompt"]));
}

#[test]
fn without_a_data_directory_there_is_no_app_folder() {
    let err = app_dir_under(None).unwrap_err();
    assert!(matches!(err, StoreError::Io(_)));
    assert_eq!(err.message(), "Failed to get home directory");
}

#[test]
fn the_app_folder_of_this_user_is_under_the_platform_directory() {
    match (dirs::data_dir(), get_app_dir()) {
        (Some(root), Ok(dir)) => {
            assert_eq!(dir.root, root);
            assert_eq!(dir.segments, names(&["iPrompt"]));
        }
        (None, Err(err)) => assert_eq!(err.message(), "Failed to get home directory"),
        (root, res) => panic!("{:?} and {:?} disagree", root, res),
    }
}

#[test]
fn the_data_file_of_this_user_is_in_the_app_folder() {
    match (dirs::data_dir(), get_data_file_path()) {
        (Some(root), Ok(file)) => {
            assert_eq!(file.root, root);
            assert_eq!(file.segments, names(&["iPrompt", "iprompt-data.json"]));
        }
        (None, Err(err)) => assert_eq!(err.message(), "Failed to get home directory"),
        (root, res) => panic!("{:?} and {:?} disagree", root, res),
    }
}

#[test]
fn an_app_folder_that_was_made_is_handed_on() {
    let dir = app_dir_made(app_dir(), Ok(())).unwrap();
    assert_eq!(dir.root, PathBuf::from("/home/alice/.local/share"));
    assert_eq!(dir.segments, names(&["iPrompt"]));
}

#[test]
fn an_app_folder_that_could_not_be_made_is_an_io_error() {
    let err = app_dir_made(app_dir(), Err("permission denied".to_string())).unwrap_err();
    assert!(matches!(err, StoreError::Io(_)));
    assert_eq!(err.message(), "Failed to create app directory: permission denied");
}

#[test]
fn the_files_of_the_store_have_fixed_places() {
    let dir = app_dir();
    assert_eq!(data_file_in(&dir).segments, names(&["iPrompt", "iprompt-data.json"]));
    assert_eq!(backup_dir_in(&dir).segments, names(&["iPrompt", "backups"]));
    assert_eq!(
        backup_file_in(&dir, "20240101_100000").segments,
        names(&["iPrompt", "backups", "iprompt-backup-20240101_100000.json"])
    );
    assert_eq!(dir.child("x").segments, names(&["iPrompt", "x"]));
    assert_eq!(dir.child("x").root, dir.root);
}

#[test]
fn an_io_error_reads_attempt_colon_cause() {
    let err = StoreError::io("Failed to do it", "because");
    assert!(matches!(err, StoreError::Io(_)));
    assert_eq!(err.message(), "Failed to do it: because");
    assert_eq!(StoreError::Io("as given".to_string()).message(), "as given");
}
