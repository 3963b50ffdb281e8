//! The two ways an operation of the store can fail.

use vstd::prelude::*;
use vstd::string::*;

verus! {

/// Why an operation of the store failed.
#[derive(Debug)]
pub enum StoreError {
    /// The file system refused; the text says what was attempted and why it failed.
    Io(String),
    /// A backup was asked for while no data file exists.
    NotFound,
}

/// What the user is told when there is nothing to back up.
pub open spec fn not_found_text() -> Seq<char> {
    "No data file to backup"@
}

/// The separator between what was attempted and the cause.
pub open spec fn cause_separator() -> Seq<char> {
    ": "@
}

/// The text of a failed attempt: what was attempted, a colon, the cause.
pub open spec fn failure_text(attempt: Seq<char>, cause: Seq<char>) -> Seq<char> {
    attempt + cause_separator() + cause
}

impl StoreError {
    /// The text shown to the user.
    pub open spec fn text(self) -> Seq<char> {
        match self {
            StoreError::Io(detail) => detail@,
            StoreError::NotFound => not_found_text(),
        }
    }

    /// An `Io` error for `attempt`, which failed because of `cause`.
    pub fn io(attempt: &str, cause: &str) -> (err: StoreError)
        ensures
            err is Io,
            err.text() == failure_text(attempt@, cause@),
    {
        let detail = String::from_str(attempt).concat(": ").concat(cause);
        StoreError::Io(detail)
    }

    /// Whether this is the `NotFound` error.
    pub fn is_not_found(&self) -> (b: bool)
        ensures
            b == (*self is NotFound),
    {
        match self {
            StoreError::NotFound => true,
            StoreError::Io(_) => false,
        }
    }

    /// The text shown to the user: the detail of an `Io` error as it stands,
    /// the fixed sentence for `NotFound`.
    pub fn message(&self) -> (text: String)
        ensures
            text@ == self.text(),
    {
        match self {
            StoreError::Io(detail) => detail.clone(),
            StoreError::NotFound => String::from_str("No data file to backup"),
        }
    }
}

} // verus!
