//! What a scan puts together from the files that it found.

use vstd::prelude::*;
use crate::files::FileStat;
use crate::model::{record_views, texts, RecordView, UsageRecord};

verus! {

/// A file that a scan found, and what became of it.
#[derive(Debug)]
pub struct ScannedFile {
    pub stat: Option<FileStat>,
    /// Its records, or the message that says why there are none.
    pub records: Result<Vec<UsageRecord>, String>,
}

/// What the file system says of the files of a scan.
pub open spec fn stats_of(files: Seq<ScannedFile>) -> Seq<Option<FileStat>> {
    files.map_values(|file: ScannedFile| file.stat)
}

/// The records of a scan, file by file.
pub open spec fn scan_records(files: Seq<ScannedFile>) -> Seq<RecordView>
    decreases files.len(),
{
    if files.len() == 0 {
        seq![]
    } else {
        match files.last().records {
            Ok(records) => scan_records(files.drop_last()) + record_views(records@),
            Err(_) => scan_records(files.drop_last()),
        }
    }
}

/// The errors of a scan, file by file.
pub open spec fn scan_errors(files: Seq<ScannedFile>) -> Seq<Seq<char>>
    decreases files.len(),
{
    if files.len() == 0 {
        seq![]
    } else {
        match files.last().records {
            Ok(_) => scan_errors(files.drop_last()),
            Err(message) => scan_errors(files.drop_last()).push(message@),
        }
    }
}

/// Puts the files of a scan together: what the file system says of each, one message for each
/// file without records, and all records in order.
pub fn assemble(files: Vec<ScannedFile>) -> (r: (
    Vec<Option<FileStat>>,
    Vec<String>,
    Vec<UsageRecord>,
))
    ensures
        r.0@ == stats_of(files@),
        texts(r.1@) == scan_errors(files@),
        record_views(r.2@) == scan_records(files@),
{
    let ghost all = files@;
    let mut stats: Vec<Option<FileStat>> = Vec::new();
    let mut errors: Vec<String> = Vec::new();
    let mut records: Vec<UsageRecord> = Vec::new();
    for file in it: files
        invariant
            it.seq() == all,
            stats@ == stats_of(all.take(it.index() as int)),
            texts(errors@) == scan_errors(all.take(it.index() as int)),
            record_views(records@) == scan_records(all.take(it.index() as int)),
    {
        let ghost first = all.take(it.index() + 1);
        assert(first.drop_last() =~= all.take(it.index() as int));
        assert(first.last() == file);
        stats.push(file.stat);
        assert(stats@ =~= stats_of(first));
        match file.records {
            Ok(mut new) => {
                let ghost before = records@;
                let ghost appended = new@;
                records.append(&mut new);
                assert(record_views(before + appended) =~= record_views(before) + record_views(
                    appended,
                ));
            },
            Err(message) => {
                let ghost before = errors@;
                errors.push(message);
                assert(texts(errors@) =~= texts(before).push(message@));
            },
        }
    }
    assert(all.take(all.len() as int) =~= all);
    (stats, errors, records)
}

proof fn lemma_scan_append(a: Seq<ScannedFile>, b: Seq<ScannedFile>)
    ensures
        scan_records(a + b) == scan_records(a) + scan_records(b),
        scan_errors(a + b) == scan_errors(a) + scan_errors(b),
    decreases b.len(),
{
    if b.len() == 0 {
        assert(a + b =~= a);
        assert(scan_records(a) + scan_records(b) =~= scan_records(a));
        assert(scan_errors(a) + scan_errors(b) =~= scan_errors(a));
    } else {
        lemma_scan_append(a, b.drop_last());
        assert((a + b).drop_last() =~= a + b.drop_last());
        assert(scan_records(a + b) =~= scan_records(a) + scan_records(b));
        assert(scan_errors(a + b) =~= scan_errors(a) + scan_errors(b));
    }
}

/// A file that cannot be parsed is reported and costs no other file its records.
pub proof fn bad_file_is_not_fatal(
    before: Seq<ScannedFile>,
    bad: ScannedFile,
    message: String,
    after: Seq<ScannedFile>,
)
    requires
        bad.records == Err::<Vec<UsageRecord>, String>(message),
    ensures
        scan_records(before + seq![bad] + after) == scan_records(before) + scan_records(after),
        scan_errors(before + seq![bad] + after) == scan_errors(before) + seq![message@]
            + scan_errors(after),
{
    reveal_with_fuel(scan_records, 2);
    reveal_with_fuel(scan_errors, 2);
    let one = seq![bad];
    lemma_scan_append(before, one);
    lemma_scan_append(before + one, after);
    assert(one.last() == bad);
    assert(scan_records(before) + scan_records(one) =~= scan_records(before));
    assert(scan_errors(one) =~= seq![message@]);
}

/// A file is scanned as what became of it: its records in order, or else its message. What the
/// file system says of it is kept either way.
pub proof fn files_give_their_records_or_their_message(file: ScannedFile)
    ensures
        match file.records {
            Ok(records) => {
                &&& scan_errors(seq![file]).len() == 0
                &&& scan_records(seq![file]).len() == records@.len()
                &&& forall|i: int|
                    0 <= i < records@.len() ==> #[trigger] scan_records(seq![file])[i]
                        == records@[i]@
            },
            Err(message) => {
                &&& scan_errors(seq![file]) == seq![message@]
                &&& scan_records(seq![file]).len() == 0
            },
        },
        stats_of(seq![file]) == seq![file.stat],
        scan_records(Seq::<ScannedFile>::empty()).len() == 0,
        scan_errors(Seq::<ScannedFile>::empty()).len() == 0,
{
    reveal_with_fuel(scan_records, 2);
    reveal_with_fuel(scan_errors, 2);
    let one = seq![file];
    assert(one.last() == file);
    assert(one.drop_last() =~= Seq::<ScannedFile>::empty());
    assert(stats_of(one) =~= seq![file.stat]);
}

/// Of every file of a scan, what the file system says of it stands in its place.
pub proof fn stats_stand_in_the_place_of_their_files(files: Seq<ScannedFile>, i: int)
    requires
        0 <= i < files.len(),
    ensures
        stats_of(files).len() == files.len(),
        stats_of(files)[i] == files[i].stat,
{
}

/// A scan of some files and then of others is one of all of them: the records and the errors of
/// the first, and then those of the others.
pub proof fn scans_follow_each_other(a: Seq<ScannedFile>, b: Seq<ScannedFile>)
    ensures
        scan_records(a + b) == scan_records(a) + scan_records(b),
        scan_errors(a + b) == scan_errors(a) + scan_errors(b),
{
    lemma_scan_append(a, b);
}

} // verus!
