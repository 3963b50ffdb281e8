//! Names of backup files: how one is made from a timestamp, and how one is
//! recognised among the entries of the backup directory.

use vstd::prelude::*;
use vstd::string::*;

verus! {

/// What every backup file's name starts with.
pub open spec fn backup_prefix() -> Seq<char> {
    "iprompt-backup-"@
}

/// What every backup file's name ends with.
pub open spec fn backup_suffix() -> Seq<char> {
    ".json"@
}

/// The name of the backup taken at `timestamp`.
pub open spec fn backup_name_for(timestamp: Seq<char>) -> Seq<char> {
    backup_prefix() + timestamp + backup_suffix()
}

/// Whether `name` follows the convention for backup files.
pub open spec fn is_backup_name(name: Seq<char>) -> bool {
    backup_prefix().is_prefix_of(name) && backup_suffix().is_suffix_of(name)
}

/// Whether `text` begins with `prefix`.
pub fn starts_with(text: &str, prefix: &str) -> (b: bool)
    ensures
        b == prefix@.is_prefix_of(text@),
{
    let n: usize = text.unicode_len();
    let m: usize = prefix.unicode_len();
    if m > n {
        return false;
    }
    let mut i: usize = 0;
    while i < m
        invariant
            i <= m <= n,
            n == text@.len(),
            m == prefix@.len(),
            forall|j: int| 0 <= j < i ==> text@[j] == prefix@[j],
        decreases m - i,
    {
        if text.get_char(i) != prefix.get_char(i) {
            assert(text@.subrange(0, m as int)[i as int] != prefix@[i as int]);
            return false;
        }
        i += 1;
    }
    assert(text@.subrange(0, m as int) =~= prefix@);
    true
}

/// Whether `text` ends with `suffix`.
pub fn ends_with(text: &str, suffix: &str) -> (b: bool)
    ensures
        b == suffix@.is_suffix_of(text@),
{
    let n: usize = text.unicode_len();
    let m: usize = suffix.unicode_len();
    if m > n {
        return false;
    }
    let start: usize = n - m;
    let mut i: usize = 0;
    while i < m
        invariant
            i <= m <= n,
            start == n - m,
            n == text@.len(),
            m == suffix@.len(),
            forall|j: int| 0 <= j < i ==> text@[start + j] == suffix@[j],
        decreases m - i,
    {
        if text.get_char(start + i) != suffix.get_char(i) {
            assert(text@.subrange(start as int, n as int)[i as int] != suffix@[i as int]);
            return false;
        }
        i += 1;
    }
    assert(text@.subrange(start as int, n as int) =~= suffix@);
    true
}

/// Whether a directory entry called `name` is a backup file.
pub fn is_backup(name: &str) -> (b: bool)
    ensures
        b == is_backup_name(name@),
{
    starts_with(name, "iprompt-backup-") && ends_with(name, ".json")
}

/// The name of the backup file taken at `timestamp`: the prefix, the
/// timestamp as given, the suffix.
pub fn backup_file_name(timestamp: &str) -> (name: String)
    ensures
        name@ == backup_name_for(timestamp@),
{
    String::from_str("iprompt-backup-").concat(timestamp).concat(".json")
}

/// Every name that `backup_file_name` makes is recognised by `is_backup`,
/// whatever the timestamp holds.
pub proof fn lemma_made_names_are_backups(timestamp: Seq<char>)
    ensures
        is_backup_name(backup_name_for(timestamp)),
{
    let name = backup_name_for(timestamp);
    let p = backup_prefix();
    let s = backup_suffix();
    assert(name.subrange(0, p.len() as int) =~= p);
    assert(name.subrange(name.len() - s.len(), name.len() as int) =~= s);
}

} // verus!
