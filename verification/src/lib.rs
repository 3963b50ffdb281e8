//! Local data store of the iPrompt desktop application: where its files live
//! under the user's data directory, how backups are named, which directory
//! entries count as backups and in what order they are listed, and how each
//! outcome of the file system is reported.
//!
//! The library decides; the program around it touches the file system and
//! hands the library what it found.

pub mod error;
pub mod names;
pub mod listing;
pub mod layout;
pub mod clock;
pub mod store;
