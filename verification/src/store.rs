//! The operations of the store. The program looks at the file system and
//! carries out what is planned here; what comes of each operation, for
//! everything the file system may report, is decided here.

use vstd::prelude::*;
use vstd::string::*;
use crate::clock::local_timestamp;
use crate::error::{failure_text, StoreError};
use crate::layout::{
    backup_dir_in,
    backup_file_in,
    backup_folder,
    data_file_in,
    data_file_name,
    StorePath,
};
use crate::listing::{backup_names, newest_first, select_backups, texts};
use crate::names::{backup_name_for, is_backup_name, lemma_made_names_are_backups};

verus! {

/// What the program found when it went to read the data file.
#[derive(Debug)]
pub enum FileRead {
    /// There is no data file.
    Missing,
    /// The file was read; this is all of its text.
    Text(String),
    /// The file is there and could not be read; this is the cause.
    Failed(String),
}

/// What the program found when it went to list the folder of backups.
#[derive(Debug)]
pub enum DirListing {
    /// There is no folder of backups.
    Missing,
    /// The names of the folder's entries, in any order.
    Entries(Vec<String>),
    /// The folder is there and could not be listed; this is the cause.
    Failed(String),
}

/// What is to be done to take a backup.
#[derive(Debug)]
pub struct BackupPlan {
    /// The file to copy: the data file.
    pub source: StorePath,
    /// The folder to make first, with its parents, unless it is there.
    pub folder: StorePath,
    /// The file to copy to; one of that name is overwritten.
    pub target: StorePath,
}

/// How carrying out a `BackupPlan` went.
#[derive(Debug)]
pub enum BackupOutcome {
    /// The folder could not be made, and nothing was copied; this is the cause.
    FolderFailed(String),
    /// The folder is there and the copy failed; this is the cause.
    CopyFailed(String),
    /// The data file was copied to the target.
    Copied,
}

/// What was attempted when reading the data file failed.
pub open spec fn read_attempt() -> Seq<char> {
    "Failed to read data file"@
}

/// What was attempted when writing the data file failed.
pub open spec fn write_attempt() -> Seq<char> {
    "Failed to write data file"@
}

/// What was attempted when the folder of backups could not be made.
pub open spec fn make_backup_dir_attempt() -> Seq<char> {
    "Failed to create backups directory"@
}

/// What was attempted when the copy of the data file failed.
pub open spec fn copy_attempt() -> Seq<char> {
    "Failed to create backup"@
}

/// What was attempted when the folder of backups could not be listed.
pub open spec fn list_attempt() -> Seq<char> {
    "Failed to read backups directory"@
}

/// Whether `plan` is the backup of the store in `app_dir`, taken at `timestamp`.
pub open spec fn is_backup_plan(plan: BackupPlan, app_dir: StorePath, timestamp: Seq<char>) -> bool {
    &&& plan.source.root == app_dir.root
    &&& plan.folder.root == app_dir.root
    &&& plan.target.root == app_dir.root
    &&& plan.source.parts() == app_dir.parts().push(data_file_name())
    &&& plan.folder.parts() == app_dir.parts().push(backup_folder())
    &&& plan.target.parts() == plan.folder.parts().push(backup_name_for(timestamp))
}

/// The text of the data file: empty where no data file exists, the file's
/// text as it was read, or an `Io` error where reading failed.
pub fn read_data_file(found: FileRead) -> (res: Result<String, StoreError>)
    ensures
        match found {
            FileRead::Missing => res matches Ok(text) && text@ == Seq::<char>::empty(),
            FileRead::Text(read) => res matches Ok(text) && text@ == read@,
            FileRead::Failed(cause) => res matches Err(e) && e is Io && e.text() == failure_text(
                read_attempt(),
                cause@,
            ),
        },
{
    match found {
        FileRead::Missing => Ok(String::new()),
        FileRead::Text(read) => Ok(read),
        FileRead::Failed(cause) => Err(StoreError::io("Failed to read data file", cause.as_str())),
    }
}

/// What writing the data file comes to: done, or an `Io` error with the cause.
pub fn write_data_file(written: Result<(), String>) -> (res: Result<(), StoreError>)
    ensures
        match written {
            Ok(_) => res is Ok,
            Err(cause) => res matches Err(e) && e is Io && e.text() == failure_text(
                write_attempt(),
                cause@,
            ),
        },
{
    match written {
        Ok(_) => Ok(()),
        Err(cause) => Err(StoreError::io("Failed to write data file", cause.as_str())),
    }
}

/// The backup of the store in `app_dir` at `timestamp`: `NotFound` where no
/// data file exists, else what to copy, and where to.
pub fn plan_backup(app_dir: &StorePath, data_exists: bool, timestamp: &str) -> (res: Result<
    BackupPlan,
    StoreError,
>)
    ensures
        match res {
            Ok(plan) => data_exists && is_backup_plan(plan, *app_dir, timestamp@),
            Err(e) => !data_exists && e is NotFound,
        },
{
    if !data_exists {
        return Err(StoreError::NotFound);
    }
    Ok(
        BackupPlan {
            source: data_file_in(app_dir),
            folder: backup_dir_in(app_dir),
            target: backup_file_in(app_dir, timestamp),
        },
    )
}

/// The backup of the store in `app_dir`, named after the local time of this
/// moment: `NotFound` where no data file exists; else a plan whose target,
/// whatever the clock said, has a name that `list_backups` keeps.
pub fn create_backup(app_dir: &StorePath, data_exists: bool) -> (res: Result<
    BackupPlan,
    StoreError,
>)
    ensures
        match res {
            Ok(plan) => {
                &&& data_exists
                &&& exists|timestamp: Seq<char>| is_backup_plan(plan, *app_dir, timestamp)
                &&& is_backup_name(plan.target.parts().last())
            },
            Err(e) => !data_exists && e is NotFound,
        },
{
    if !data_exists {
        return Err(StoreError::NotFound);
    }
    let timestamp = local_timestamp();
    let res = plan_backup(app_dir, data_exists, timestamp.as_str());
    proof {
        lemma_made_names_are_backups(timestamp@);
    }
    res
}

/// What taking a backup comes to: the place of the new backup, or an `Io`
/// error that says which step failed and why.
pub fn backup_result(plan: BackupPlan, outcome: BackupOutcome) -> (res: Result<
    StorePath,
    StoreError,
>)
    ensures
        match outcome {
            BackupOutcome::Copied => res == Ok::<StorePath, StoreError>(plan.target),
            BackupOutcome::FolderFailed(cause) => res matches Err(e) && e is Io && e.text()
                == failure_text(make_backup_dir_attempt(), cause@),
            BackupOutcome::CopyFailed(cause) => res matches Err(e) && e is Io && e.text()
                == failure_text(copy_attempt(), cause@),
        },
{
    match outcome {
        BackupOutcome::Copied => Ok(plan.target),
        BackupOutcome::FolderFailed(cause) => Err(
            StoreError::io("Failed to create backups directory", cause.as_str()),
        ),
        BackupOutcome::CopyFailed(cause) => Err(
            StoreError::io("Failed to create backup", cause.as_str()),
        ),
    }
}

/// The names of the backups, the most recent first: none where there is no
/// folder of backups; else each entry that follows the convention for backup
/// files, as often as it occurs, and no other; an `Io` error where the folder
/// could not be listed.
pub fn list_backups(found: DirListing) -> (res: Result<Vec<String>, StoreError>)
    ensures
        match found {
            DirListing::Missing => res matches Ok(names) && names@.len() == 0,
            DirListing::Entries(entries) => res matches Ok(names) && newest_first(texts(names@))
                && texts(names@).to_multiset() == backup_names(texts(entries@)).to_multiset(),
            DirListing::Failed(cause) => res matches Err(e) && e is Io && e.text() == failure_text(
                list_attempt(),
                cause@,
            ),
        },
{
    match found {
        DirListing::Missing => Ok(Vec::new()),
        DirListing::Entries(entries) => Ok(select_backups(&entries)),
        DirListing::Failed(cause) => Err(
            StoreError::io("Failed to read backups directory", cause.as_str()),
        ),
    }
}

} // verus!
