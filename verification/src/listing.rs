//! Which entries of the backup directory are listed, and in what order.
//!
//! Names are ordered as strings are: byte by byte over their UTF-8 encoding,
//! a proper prefix before the longer name. Backup names carry a timestamp of
//! fixed width, so the greatest name is the most recent backup.

use vstd::prelude::*;
use vstd::string::*;
use vstd::seq_lib::{
    to_multiset_build,
    to_multiset_contains,
    to_multiset_insert,
    to_multiset_len,
    to_multiset_remove,
};
use vstd::utf8::{
    encode_utf8,
    encode_utf8_decode_utf8,
    is_ascii_chars,
    is_ascii_chars_encode_utf8,
};
use crate::names::{backup_name_for, backup_prefix, backup_suffix, is_backup, is_backup_name};

verus! {

/// Whether `a`, read from position `i` on, comes no later than `b` read from
/// the same position; the bytes before `i` are taken to agree.
pub open spec fn bytes_le_from(a: Seq<u8>, b: Seq<u8>, i: int) -> bool
    decreases a.len() - i,
{
    if i < 0 || i >= a.len() {
        true
    } else if i >= b.len() {
        false
    } else if a[i] != b[i] {
        a[i] < b[i]
    } else {
        bytes_le_from(a, b, i + 1)
    }
}

/// Whether the name `a` comes no later than the name `b` in the order of strings.
pub open spec fn name_le(a: Seq<char>, b: Seq<char>) -> bool {
    bytes_le_from(encode_utf8(a), encode_utf8(b), 0)
}

/// Whether each name comes no earlier, in the order of strings, than all that
/// follow it: the most recent backup first.
pub open spec fn newest_first(names: Seq<Seq<char>>) -> bool {
    forall|i: int, j: int| 0 <= i < j < names.len() ==> name_le(names[j], names[i])
}

/// The texts that a sequence of strings holds.
pub open spec fn texts(names: Seq<String>) -> Seq<Seq<char>> {
    names.map_values(|s: String| s@)
}

/// The names among `names` that follow the convention for backup files, in
/// the order in which they stand.
pub open spec fn backup_names(names: Seq<Seq<char>>) -> Seq<Seq<char>> {
    names.filter(|n: Seq<char>| is_backup_name(n))
}

/// Whether `a` and `b` both reach position `k` and hold the same bytes before it.
pub open spec fn agree_before(a: Seq<u8>, b: Seq<u8>, k: int) -> bool {
    &&& 0 <= k <= a.len()
    &&& k <= b.len()
    &&& forall|j: int| 0 <= j < k ==> a[j] == b[j]
}

/// Whether `a` comes no later than `b` in the order of a dictionary: `a` is
/// the beginning of `b`, or where the two first differ `a` has the lesser byte.
pub open spec fn lexicographic_le(a: Seq<u8>, b: Seq<u8>) -> bool {
    exists|k: int| #[trigger]
        agree_before(a, b, k) && (k == a.len() || (k < b.len() && a[k] < b[k]))
}

/// Read from a position before which two byte strings agree, the order of
/// names is the order of a dictionary.
pub proof fn lemma_order_is_lexicographic(a: Seq<u8>, b: Seq<u8>, i: int)
    requires
        agree_before(a, b, i),
    ensures
        bytes_le_from(a, b, i) == lexicographic_le(a, b),
    decreases a.len() - i,
{
    if i < a.len() && i < b.len() && a[i] == b[i] {
        assert(agree_before(a, b, i + 1));
        lemma_order_is_lexicographic(a, b, i + 1);
    } else if bytes_le_from(a, b, i) {
        assert(agree_before(a, b, i) && (i == a.len() || (i < b.len() && a[i] < b[i])));
    } else {
        assert forall|k: int| #[trigger]
            agree_before(a, b, k) implies !(k == a.len() || (k < b.len() && a[k] < b[k])) by {
            if k > i {
                assert(a[i] == b[i]);
            }
        }
    }
}

/// Of two byte strings, one comes no later than the other.
pub proof fn lemma_bytes_le_total(a: Seq<u8>, b: Seq<u8>, i: int)
    requires
        0 <= i,
    ensures
        bytes_le_from(a, b, i) || bytes_le_from(b, a, i),
    decreases a.len() - i,
{
    if i < a.len() && i < b.len() && a[i] == b[i] {
        lemma_bytes_le_total(a, b, i + 1);
    }
}

/// The order of byte strings is transitive.
pub proof fn lemma_bytes_le_transitive(a: Seq<u8>, b: Seq<u8>, c: Seq<u8>, i: int)
    requires
        0 <= i,
        bytes_le_from(a, b, i),
        bytes_le_from(b, c, i),
    ensures
        bytes_le_from(a, c, i),
    decreases a.len() - i,
{
    if i < a.len() && a[i] == b[i] && b[i] == c[i] {
        lemma_bytes_le_transitive(a, b, c, i + 1);
    }
}

/// Two byte strings that agree before position `i`, and of which each comes
/// no later than the other from there on, are one string.
pub proof fn lemma_bytes_le_antisymmetric(a: Seq<u8>, b: Seq<u8>, i: int)
    requires
        0 <= i <= a.len(),
        i <= b.len(),
        forall|k: int| 0 <= k < i ==> a[k] == b[k],
        bytes_le_from(a, b, i),
        bytes_le_from(b, a, i),
    ensures
        a == b,
    decreases a.len() - i,
{
    if i < a.len() {
        lemma_bytes_le_antisymmetric(a, b, i + 1);
    } else {
        assert(a =~= b);
    }
}

/// Two names of which each comes no later than the other are one name.
pub proof fn lemma_name_le_antisymmetric(a: Seq<char>, b: Seq<char>)
    requires
        name_le(a, b),
        name_le(b, a),
    ensures
        a == b,
{
    lemma_bytes_le_antisymmetric(encode_utf8(a), encode_utf8(b), 0);
    encode_utf8_decode_utf8(a);
    encode_utf8_decode_utf8(b);
}

/// There is one way to list given names the most recent first: two listings
/// that hold the same names, each as often as the other, are the same.
pub proof fn lemma_newest_first_unique(a: Seq<Seq<char>>, b: Seq<Seq<char>>)
    requires
        newest_first(a),
        newest_first(b),
        a.to_multiset() == b.to_multiset(),
    ensures
        a == b,
    decreases a.len(),
{
    to_multiset_len(a);
    to_multiset_len(b);
    if a.len() == 0 {
        assert(a =~= b);
    } else {
        to_multiset_contains(a, a[0]);
        to_multiset_contains(b, a[0]);
        to_multiset_contains(a, b[0]);
        to_multiset_contains(b, b[0]);
        assert(a.contains(a[0]));
        assert(b.contains(b[0]));
        let j = choose|j: int| 0 <= j < b.len() && b[j] == a[0];
        let k = choose|k: int| 0 <= k < a.len() && a[k] == b[0];
        if j != 0 && k != 0 {
            assert(name_le(b[j], b[0]));
            assert(name_le(a[k], a[0]));
            lemma_name_le_antisymmetric(a[0], b[0]);
        }
        assert(a[0] == b[0]);
        to_multiset_remove(a, 0);
        to_multiset_remove(b, 0);
        let x = a.remove(0);
        let y = b.remove(0);
        assert forall|i: int, j: int| 0 <= i < j < x.len() implies name_le(x[j], x[i]) by {
            assert(name_le(a[j + 1], a[i + 1]));
        }
        assert forall|i: int, j: int| 0 <= i < j < y.len() implies name_le(y[j], y[i]) by {
            assert(name_le(b[j + 1], b[i + 1]));
        }
        lemma_newest_first_unique(x, y);
        assert(a =~= seq![a[0]] + x);
        assert(b =~= seq![b[0]] + y);
    }
}

/// The encoding of two texts, one after the other, is the encoding of the
/// first followed by that of the second.
pub proof fn lemma_encode_concat(a: Seq<char>, b: Seq<char>)
    ensures
        encode_utf8(a + b) == encode_utf8(a) + encode_utf8(b),
    decreases a.len(),
{
    if a.len() == 0 {
        assert(a + b =~= b);
        assert(encode_utf8(a) + encode_utf8(b) =~= encode_utf8(b));
    } else {
        assert((a + b).drop_first() =~= a.drop_first() + b);
        lemma_encode_concat(a.drop_first(), b);
        assert(encode_utf8(a + b) =~= encode_utf8(a) + encode_utf8(b));
    }
}

/// Bytes on which two strings agree do not decide their order.
proof fn lemma_agreeing_bytes_skipped(a: Seq<u8>, b: Seq<u8>, from: int, to: int)
    requires
        0 <= from <= to,
        to <= a.len(),
        to <= b.len(),
        forall|k: int| from <= k < to ==> a[k] == b[k],
    ensures
        bytes_le_from(a, b, from) == bytes_le_from(a, b, to),
    decreases to - from,
{
    if from < to {
        lemma_agreeing_bytes_skipped(a, b, from + 1, to);
    }
}

/// Between one opening `head` and one ending `tail`, two middles of one
/// length are ordered as they are alone.
proof fn lemma_framed_order(head: Seq<u8>, a: Seq<u8>, b: Seq<u8>, tail: Seq<u8>, i: int)
    requires
        a.len() == b.len(),
        0 <= i <= a.len(),
    ensures
        bytes_le_from(head + a + tail, head + b + tail, head.len() + i) == bytes_le_from(a, b, i),
    decreases a.len() - i,
{
    let x = head + a + tail;
    let y = head + b + tail;
    if i < a.len() {
        assert(x[head.len() + i] == a[i]);
        assert(y[head.len() + i] == b[i]);
        lemma_framed_order(head, a, b, tail, i + 1);
    } else {
        assert forall|k: int| head.len() + i <= k < x.len() implies x[k] == y[k] by {
            assert(x[k] == tail[k - head.len() - a.len()]);
            assert(y[k] == tail[k - head.len() - b.len()]);
        }
        lemma_agreeing_bytes_skipped(x, y, head.len() + i, x.len() as int);
    }
}

/// Backups taken at two timestamps whose encodings have one length are
/// ordered as the timestamps are.
pub proof fn lemma_backups_ordered_as_timestamps(earlier: Seq<char>, later: Seq<char>)
    requires
        encode_utf8(earlier).len() == encode_utf8(later).len(),
    ensures
        name_le(backup_name_for(earlier), backup_name_for(later)) == name_le(earlier, later),
{
    let head = encode_utf8(backup_prefix());
    let tail = encode_utf8(backup_suffix());
    let a = encode_utf8(earlier);
    let b = encode_utf8(later);
    lemma_encode_concat(backup_prefix(), earlier);
    lemma_encode_concat(backup_prefix() + earlier, backup_suffix());
    lemma_encode_concat(backup_prefix(), later);
    lemma_encode_concat(backup_prefix() + later, backup_suffix());
    let x = head + a + tail;
    let y = head + b + tail;
    assert forall|k: int| 0 <= k < head.len() implies x[k] == y[k] by {
        assert(x[k] == head[k]);
        assert(y[k] == head[k]);
    }
    lemma_agreeing_bytes_skipped(x, y, 0, head.len() as int);
    lemma_framed_order(head, a, b, tail, 0);
}

/// Backups taken at two timestamps of one width, written in ASCII as the
/// clock's are, are ordered as the timestamps are: the later one comes first
/// in a listing.
pub proof fn lemma_fixed_width_backups_ordered(earlier: Seq<char>, later: Seq<char>)
    requires
        is_ascii_chars(earlier),
        is_ascii_chars(later),
        earlier.len() == later.len(),
    ensures
        name_le(backup_name_for(earlier), backup_name_for(later)) == name_le(earlier, later),
{
    is_ascii_chars_encode_utf8(earlier);
    is_ascii_chars_encode_utf8(later);
    lemma_backups_ordered_as_timestamps(earlier, later);
}

/// Whether the name `a` comes no later than the name `b`.
pub fn name_le_exec(a: &str, b: &str) -> (le: bool)
    ensures
        le == name_le(a@, b@),
{
    let x = a.as_bytes();
    let y = b.as_bytes();
    let mut i: usize = 0;
    loop
        invariant
            i <= x@.len(),
            i <= y@.len(),
            x@ == encode_utf8(a@),
            y@ == encode_utf8(b@),
            name_le(a@, b@) == bytes_le_from(x@, y@, i as int),
        decreases x@.len() - i,
    {
        if i >= x.len() {
            return true;
        }
        if i >= y.len() {
            return false;
        }
        if x[i] != y[i] {
            return x[i] < y[i];
        }
        i += 1;
    }
}

/// Puts `name` into `names` at a place that keeps the most recent first.
fn insert_in_order(names: &mut Vec<String>, name: String)
    requires
        newest_first(texts(old(names)@)),
    ensures
        newest_first(texts(final(names)@)),
        texts(final(names)@).to_multiset() == texts(old(names)@).to_multiset().insert(name@),
{
    let mut at: usize = 0;
    while at < names.len() && name_le_exec(name.as_str(), names[at].as_str())
        invariant
            at <= names@.len(),
            names@ == old(names)@,
            forall|j: int| 0 <= j < at ==> name_le(name@, #[trigger] texts(names@)[j]),
        decreases names@.len() - at,
    {
        at += 1;
    }
    let ghost before = texts(names@);
    proof {
        assert forall|j: int| at <= j < before.len() implies name_le(before[j], name@) by {
            assert(before[at as int] == names@[at as int]@);
            assert(!name_le(name@, before[at as int]));
            lemma_bytes_le_total(encode_utf8(name@), encode_utf8(before[at as int]), 0);
            if j > at {
                assert(name_le(before[j], before[at as int]));
                lemma_bytes_le_transitive(
                    encode_utf8(before[j]),
                    encode_utf8(before[at as int]),
                    encode_utf8(name@),
                    0,
                );
            }
        }
    }
    names.insert(at, name);
    proof {
        let after = texts(names@);
        assert(after =~= before.insert(at as int, name@));
        to_multiset_insert(before, at as int, name@);
        assert forall|i: int, j: int| 0 <= i < j < after.len() implies name_le(
            after[j],
            after[i],
        ) by {
            if j < at {
                assert(name_le(before[j], before[i]));
            } else if j == at {
                assert(name_le(name@, before[i]));
            } else if i < at {
                assert(name_le(before[j - 1], before[i]));
            } else if i == at {
                assert(name_le(before[j - 1], name@));
            } else {
                assert(name_le(before[j - 1], before[i - 1]));
            }
        }
    }
}

/// The backups among the entries of a directory, the most recent first.
///
/// An entry is kept exactly when its name follows the convention for backup
/// files, as often as it occurs; the others are passed over.
pub fn select_backups(entries: &Vec<String>) -> (backups: Vec<String>)
    ensures
        newest_first(texts(backups@)),
        texts(backups@).to_multiset() == backup_names(texts(entries@)).to_multiset(),
{
    let mut backups: Vec<String> = Vec::new();
    let mut i: usize = 0;
    proof {
        let none = Seq::<Seq<char>>::empty();
        none.lemma_filter_len(|n: Seq<char>| is_backup_name(n));
        assert(texts(entries@.take(0)) =~= none);
        assert(backup_names(none) =~= none);
        assert(texts(backups@) =~= none);
    }
    while i < entries.len()
        invariant
            i <= entries@.len(),
            newest_first(texts(backups@)),
            texts(backups@).to_multiset() == backup_names(
                texts(entries@.take(i as int)),
            ).to_multiset(),
        decreases entries@.len() - i,
    {
        let ghost seen = texts(entries@.take(i as int));
        proof {
            assert(texts(entries@.take(i + 1)) =~= seen.push(entries@[i as int]@));
            seen.lemma_filter_push(entries@[i as int]@, |n: Seq<char>| is_backup_name(n));
        }
        if is_backup(entries[i].as_str()) {
            insert_in_order(&mut backups, entries[i].clone());
            proof {
                to_multiset_build(backup_names(seen), entries@[i as int]@);
            }
        }
        i += 1;
    }
    assert(entries@.take(i as int) =~= entries@);
    backups
}

} // verus!
