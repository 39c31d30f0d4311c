//! Which files changed: a fingerprint over what the file system says of them.

use vstd::prelude::*;
use vstd::string::*;
use crate::model::rank;
use crate::text::{
    decimal, decimal_i64, decimal_int, decimal_u64, lemma_decimal_digits, lemma_decimal_injective,
    lemma_decimal_int_injective, lemma_split_at_colon,
};

verus! {

/// What the file system says of a file.
#[derive(Debug, Clone, Copy)]
pub struct FileStat {
    pub len: u64,
    /// When the file was last changed, in seconds since the Unix epoch, where that is known.
    pub mtime_secs: Option<i64>,
}

/// How many of the files could be looked at.
pub open spec fn readable(stats: Seq<Option<FileStat>>) -> nat
    decreases stats.len(),
{
    if stats.len() == 0 {
        0
    } else {
        readable(stats.drop_last()) + if stats.last() is Some {
            1nat
        } else {
            0
        }
    }
}

/// The length of all files together.
pub open spec fn total_len(stats: Seq<Option<FileStat>>) -> nat
    decreases stats.len(),
{
    if stats.len() == 0 {
        0
    } else {
        total_len(stats.drop_last()) + match stats.last() {
            Some(stat) => stat.len as nat,
            None => 0,
        }
    }
}

/// The last change of any file, not before the epoch.
pub open spec fn newest(stats: Seq<Option<FileStat>>) -> i64
    decreases stats.len(),
{
    if stats.len() == 0 {
        0
    } else {
        let before = newest(stats.drop_last());
        match stats.last() {
            Some(stat) => match stat.mtime_secs {
                Some(secs) => if secs > before {
                    secs
                } else {
                    before
                },
                None => before,
            },
            None => before,
        }
    }
}

/// A fingerprint: the count, the last change and the length, between colons.
pub open spec fn fingerprint_text(found: nat, mtime: int, bytes: nat) -> Seq<char> {
    decimal(found) + ":"@ + (decimal_int(mtime) + ":"@ + decimal(bytes))
}

/// The fingerprint of a run of files.
pub open spec fn files_fingerprint(stats: Seq<Option<FileStat>>) -> Seq<char> {
    fingerprint_text(readable(stats), newest(stats) as int, total_len(stats))
}

/// A fingerprint: the count, the last change and the length, between colons.
pub fn fingerprint(found: u64, max_mtime: i64, total_bytes: u64) -> (r: String)
    ensures
        r@ == fingerprint_text(found as nat, max_mtime as int, total_bytes as nat),
{
    let mut tail = decimal_i64(max_mtime);
    tail.append(":");
    tail.append(decimal_u64(total_bytes).as_str());
    let mut r = decimal_u64(found);
    r.append(":");
    r.append(tail.as_str());
    r
}

/// The message for a file with which `what` failed.
pub open spec fn file_error(what: Seq<char>, path: Seq<char>, message: Seq<char>) -> Seq<char> {
    what + " "@ + path + ": "@ + message
}

/// The message for a file with which `what` failed: the step, the path as messages show it, and
/// the reason.
pub fn file_error_text(what: &str, path: &str, message: &str) -> (r: String)
    ensures
        r@ == file_error(what@, path@, message@),
{
    let mut r = what.to_owned();
    r.append(" ");
    r.append(path);
    r.append(": ");
    r.append(message);
    r
}

proof fn lemma_total_len_take(stats: Seq<Option<FileStat>>, i: int)
    requires
        0 <= i <= stats.len(),
    ensures
        total_len(stats.take(i)) <= total_len(stats),
    decreases stats.len() - i,
{
    if i < stats.len() {
        lemma_total_len_take(stats, i + 1);
        assert(stats.take(i + 1).drop_last() =~= stats.take(i));
    } else {
        assert(stats.take(i) =~= stats);
    }
}

proof fn lemma_readable_bound(stats: Seq<Option<FileStat>>)
    ensures
        readable(stats) <= stats.len(),
    decreases stats.len(),
{
    if stats.len() > 0 {
        lemma_readable_bound(stats.drop_last());
    }
}

/// The fingerprint of a run of files. A file that could not be looked at does not count.
pub fn fingerprint_of(stats: &Vec<Option<FileStat>>) -> (r: String)
    requires
        total_len(stats@) <= u64::MAX,
    ensures
        r@ == files_fingerprint(stats@),
{
    let mut found: u64 = 0;
    let mut max_mtime: i64 = 0;
    let mut total_bytes: u64 = 0;
    let n: usize = stats.len();
    let mut i: usize = 0;
    while i < n
        invariant
            i <= n == stats@.len(),
            total_len(stats@) <= u64::MAX,
            found == readable(stats@.take(i as int)),
            max_mtime == newest(stats@.take(i as int)),
            total_bytes == total_len(stats@.take(i as int)),
        decreases n - i,
    {
        let ghost first = stats@.take(i + 1);
        assert(first.drop_last() =~= stats@.take(i as int));
        proof {
            lemma_total_len_take(stats@, i + 1);
            lemma_readable_bound(first);
        }
        if let Some(stat) = stats[i] {
            found += 1;
            total_bytes += stat.len;
            if let Some(secs) = stat.mtime_secs {
                if secs > max_mtime {
                    max_mtime = secs;
                }
            }
        }
        i += 1;
    }
    assert(stats@.take(n as int) =~= stats@);
    fingerprint(found, max_mtime, total_bytes)
}

/// A change in the number of files, in their last change or in their length shows in the
/// fingerprint: equal fingerprints come from equal numbers.
pub proof fn fingerprints_tell_changes(
    found: nat,
    mtime: int,
    bytes: nat,
    found2: nat,
    mtime2: int,
    bytes2: nat,
)
    requires
        fingerprint_text(found, mtime, bytes) == fingerprint_text(found2, mtime2, bytes2),
    ensures
        found == found2,
        mtime == mtime2,
        bytes == bytes2,
{
    lemma_decimal_digits(found);
    lemma_decimal_digits(found2);
    let x = decimal_int(mtime) + ":"@ + decimal(bytes);
    let y = decimal_int(mtime2) + ":"@ + decimal(bytes2);
    lemma_split_at_colon(decimal(found), x, decimal(found2), y);
    lemma_decimal_injective(found, found2);
    lemma_decimal_int_injective(mtime, mtime2);
    lemma_decimal_int_injective(mtime2, mtime);
    lemma_split_at_colon(decimal_int(mtime), decimal(bytes), decimal_int(mtime2), decimal(bytes2));
    lemma_decimal_injective(bytes, bytes2);
}

/// The last change is that of a file, or the epoch; no file that could be looked at was changed
/// later.
pub proof fn newest_is_the_last_change(stats: Seq<Option<FileStat>>)
    ensures
        newest(stats) >= 0,
        forall|i: int|
            0 <= i < stats.len() ==> ((#[trigger] stats[i]) matches Some(stat) ==> (
            stat.mtime_secs matches Some(secs) ==> secs <= newest(stats))),
        newest(stats) == 0 || exists|i: int|
            0 <= i < stats.len() && ((#[trigger] stats[i]) matches Some(stat) && stat.mtime_secs
                == Some(newest(stats))),
    decreases stats.len(),
{
    if stats.len() > 0 {
        let front = stats.drop_last();
        let last = stats.len() - 1;
        newest_is_the_last_change(front);
        assert forall|i: int| 0 <= i < stats.len() implies ((#[trigger] stats[i]) matches Some(stat)
            ==> (stat.mtime_secs matches Some(secs) ==> secs <= newest(stats))) by {
            if i < last {
                assert(front[i] == stats[i]);
            }
        }
        if newest(stats) != 0 {
            if newest(stats) == newest(front) {
                let i = choose|i: int|
                    0 <= i < front.len() && ((#[trigger] front[i]) matches Some(stat)
                        && stat.mtime_secs == Some(newest(front)));
                assert(stats[i] == front[i]);
            } else {
                assert(stats[last] == stats.last());
            }
        }
    }
}

/// The places of the files that could be looked at.
pub open spec fn looked_at(stats: Seq<Option<FileStat>>) -> Set<int> {
    Set::new(|i: int| 0 <= i < stats.len() && stats[i] is Some)
}

proof fn lemma_readable(stats: Seq<Option<FileStat>>, chosen: Set<int>)
    requires
        forall|i: int| 0 <= i < stats.len() ==> (#[trigger] chosen.contains(i) == (stats[i] is Some)),
    ensures
        readable(stats) == rank(chosen, stats.len() as int),
    decreases stats.len(),
{
    if stats.len() > 0 {
        let front = stats.drop_last();
        assert forall|i: int| 0 <= i < front.len() implies (#[trigger] chosen.contains(i) == (
        front[i] is Some)) by {
            assert(front[i] == stats[i]);
        }
        lemma_readable(front, chosen);
        assert(chosen.contains(stats.len() - 1) == (stats[stats.len() - 1] is Some));
    }
}

/// The fingerprint of files names how many could be looked at, their last change and their length
/// together, between colons.
pub proof fn fingerprint_names_count_change_and_length(stats: Seq<Option<FileStat>>)
    ensures
        files_fingerprint(stats) == decimal(rank(looked_at(stats), stats.len() as int)) + ":"@
            + decimal_int(newest(stats) as int) + ":"@ + decimal(total_len(stats)),
{
    lemma_readable(stats, looked_at(stats));
    let found = decimal(readable(stats));
    let mtime = decimal_int(newest(stats) as int);
    let bytes = decimal(total_len(stats));
    assert(found + ":"@ + (mtime + ":"@ + bytes) =~= found + ":"@ + mtime + ":"@ + bytes);
}

/// The length of files together is that of the first and that of the others; a file that could not
/// be looked at has none.
pub proof fn lengths_are_added(a: Seq<Option<FileStat>>, b: Seq<Option<FileStat>>, stat: FileStat)
    ensures
        total_len(a + b) == total_len(a) + total_len(b),
        total_len(seq![Some(stat)]) == stat.len,
        total_len(seq![None::<FileStat>]) == 0,
        total_len(Seq::<Option<FileStat>>::empty()) == 0,
    decreases b.len(),
{
    reveal_with_fuel(total_len, 2);
    assert(seq![Some(stat)].drop_last() =~= Seq::<Option<FileStat>>::empty());
    assert(seq![None::<FileStat>].drop_last() =~= Seq::<Option<FileStat>>::empty());
    if b.len() == 0 {
        assert(a + b =~= a);
    } else {
        lengths_are_added(a, b.drop_last(), stat);
        assert((a + b).drop_last() =~= a + b.drop_last());
    }
}

/// The message of a file that failed names the step, the file and the reason, in this order.
pub proof fn failure_names_step_file_and_reason(
    what: Seq<char>,
    path: Seq<char>,
    message: Seq<char>,
)
    ensures
        file_error(what, path, message) == what + " "@ + path + ": "@ + message,
{
}

} // verus!
