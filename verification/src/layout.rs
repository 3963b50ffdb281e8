//! Where the store keeps its files: one folder under the user's data
//! directory, the data file in it, and a folder of backups beside the data file.

use vstd::prelude::*;
use vstd::string::*;
use std::path::PathBuf;
use crate::error::{failure_text, StoreError};
use crate::listing::texts;
use crate::names::{backup_file_name, backup_name_for};

verus! {

/// A path of the standard library, carried through as it is: nothing in the
/// library looks inside one.
#[verifier::external_type_specification]
#[verifier::external_body]
pub struct ExPathBuf(std::path::PathBuf);

/// `PathBuf::clone` of the standard library: the copy is the same path.
pub assume_specification[ <PathBuf as Clone>::clone ](path: &PathBuf) -> (copy: PathBuf)
    ensures
        copy == *path,
;

/// The user's data directory as `dirs::data_dir` reports it, or `None` where
/// the platform gives none. The answer depends on the platform and on the
/// user's environment, so nothing is claimed of it.
#[verifier::external_body]
fn user_data_dir() -> (root: Option<PathBuf>) {
    dirs::data_dir()
}

/// A place in the store: the user's data directory, and below it one path
/// component after another.
#[derive(Debug)]
pub struct StorePath {
    /// The user's data directory.
    pub root: PathBuf,
    /// The components below `root`, outermost first.
    pub segments: Vec<String>,
}

/// The folder of the application under the user's data directory.
pub open spec fn app_folder() -> Seq<char> {
    "iPrompt"@
}

/// The name of the data file.
pub open spec fn data_file_name() -> Seq<char> {
    "iprompt-data.json"@
}

/// The folder of the backups under the application's folder.
pub open spec fn backup_folder() -> Seq<char> {
    "backups"@
}

/// What the user is told where the platform names no data directory.
pub open spec fn no_root_text() -> Seq<char> {
    "Failed to get home directory"@
}

/// What was attempted when the application's folder could not be made.
pub open spec fn make_app_dir_attempt() -> Seq<char> {
    "Failed to create app directory"@
}

/// The components of the application's folder.
pub open spec fn app_dir_parts() -> Seq<Seq<char>> {
    seq![app_folder()]
}

/// The components of the data file.
pub open spec fn data_file_parts() -> Seq<Seq<char>> {
    seq![app_folder(), data_file_name()]
}

/// The components of the folder of backups.
pub open spec fn backup_dir_parts() -> Seq<Seq<char>> {
    seq![app_folder(), backup_folder()]
}

/// The components of the backup taken at `timestamp`.
pub open spec fn backup_file_parts(timestamp: Seq<char>) -> Seq<Seq<char>> {
    seq![app_folder(), backup_folder(), backup_name_for(timestamp)]
}

impl StorePath {
    /// The components below the root, as texts.
    pub open spec fn parts(self) -> Seq<Seq<char>> {
        texts(self.segments@)
    }

    /// The place one component further down.
    pub fn child(&self, name: &str) -> (below: StorePath)
        ensures
            below.root == self.root,
            below.parts() == self.parts().push(name@),
    {
        let mut segments: Vec<String> = Vec::new();
        let mut i: usize = 0;
        while i < self.segments.len()
            invariant
                i <= self.segments@.len(),
                texts(segments@) =~= self.parts().take(i as int),
            decreases self.segments@.len() - i,
        {
            let ghost copied = texts(segments@);
            let segment = self.segments[i].clone();
            segments.push(segment);
            assert(texts(segments@) =~= copied.push(self.segments@[i as int]@));
            assert(self.parts().take(i + 1) =~= copied.push(self.parts()[i as int]));
            i += 1;
        }
        assert(self.parts().take(i as int) =~= self.parts());
        segments.push(String::from_str(name));
        assert(texts(segments@) =~= self.parts().push(name@));
        StorePath { root: self.root.clone(), segments }
    }
}

/// The application's folder under `root`, the user's data directory; an `Io`
/// error where the platform named none.
pub fn app_dir_under(root: Option<PathBuf>) -> (res: Result<StorePath, StoreError>)
    ensures
        match root {
            Some(r) => res matches Ok(dir) && dir.root == r && dir.parts() == app_dir_parts(),
            None => res matches Err(e) && e is Io && e.text() == no_root_text(),
        },
{
    match root {
        Some(r) => {
            let mut segments: Vec<String> = Vec::new();
            segments.push(String::from_str("iPrompt"));
            assert(texts(segments@) =~= app_dir_parts());
            Ok(StorePath { root: r, segments })
        },
        None => Err(StoreError::Io(String::from_str("Failed to get home directory"))),
    }
}

/// The application's folder under the data directory of the user who runs
/// the program. Which directory that is, and whether there is one, is the
/// platform's to say: the folder below it is fixed.
pub fn get_app_dir() -> (res: Result<StorePath, StoreError>)
    ensures
        res matches Ok(dir) ==> dir.parts() == app_dir_parts(),
        res matches Err(e) ==> e is Io && e.text() == no_root_text(),
{
    app_dir_under(user_data_dir())
}

/// What resolving the application's folder comes to once the program has
/// tried to make it: the folder, or an `Io` error with the cause.
pub fn app_dir_made(dir: StorePath, made: Result<(), String>) -> (res: Result<
    StorePath,
    StoreError,
>)
    ensures
        match made {
            Ok(_) => res == Ok::<StorePath, StoreError>(dir),
            Err(cause) => res matches Err(e) && e is Io && e.text() == failure_text(
                make_app_dir_attempt(),
                cause@,
            ),
        },
{
    match made {
        Ok(_) => Ok(dir),
        Err(cause) => Err(StoreError::io("Failed to create app directory", cause.as_str())),
    }
}

/// The data file in the application's folder `app_dir`.
pub fn data_file_in(app_dir: &StorePath) -> (file: StorePath)
    ensures
        file.root == app_dir.root,
        file.parts() == app_dir.parts().push(data_file_name()),
{
    app_dir.child("iprompt-data.json")
}

/// The folder of backups in the application's folder `app_dir`.
pub fn backup_dir_in(app_dir: &StorePath) -> (folder: StorePath)
    ensures
        folder.root == app_dir.root,
        folder.parts() == app_dir.parts().push(backup_folder()),
{
    app_dir.child("backups")
}

/// The backup taken at `timestamp`, in the folder of backups of `app_dir`.
pub fn backup_file_in(app_dir: &StorePath, timestamp: &str) -> (file: StorePath)
    ensures
        file.root == app_dir.root,
        file.parts() == app_dir.parts().push(backup_folder()).push(backup_name_for(timestamp@)),
{
    let name = backup_file_name(timestamp);
    app_dir.child("backups").child(name.as_str())
}

/// The data file of the user who runs the program.
pub fn get_data_file_path() -> (res: Result<StorePath, StoreError>)
    ensures
        res matches Ok(file) ==> file.parts() == data_file_parts(),
        res matches Err(e) ==> e is Io && e.text() == no_root_text(),
{
    match get_app_dir() {
        Ok(dir) => {
            let file = data_file_in(&dir);
            assert(file.parts() =~= data_file_parts());
            Ok(file)
        },
        Err(e) => Err(e),
    }
}

} // verus!
