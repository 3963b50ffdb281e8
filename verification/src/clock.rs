//! The time a backup is named after.

use vstd::prelude::*;

verus! {

/// The local time of this moment, written by `chrono`'s `DateTime::format`
/// from `chrono::Local::now()` with the pattern `%Y%m%d_%H%M%S`: year, month,
/// day, an underscore, hour, minute, second. The text depends on the clock
/// and the time zone of the machine, so nothing is claimed of it; `chrono`
/// stops the program where the clock stands before 1970.
#[verifier::external_body]
pub(crate) fn local_timestamp() -> (text: String) {
    chrono::Local::now().format("%Y%m%d_%H%M%S").to_string()
}

} // verus!
