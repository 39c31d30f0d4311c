//! A scan over the session files below the roots.

use vstd::prelude::*;
use crate::atomcode::AtomCodeSource;
use crate::files::{files_fingerprint, fingerprint_of, total_len, FileStat};
use crate::model::{
    flagged, flagged_are_kept_in_order, lemma_no_rank_without_flags, record_views, texts, Provider,
    ProviderError, ScanOutput, UsageRecord,
};
use crate::scan::{assemble, scan_errors, scan_records, stats_of, ScannedFile};
use crate::text::{ascii_lowercase, ends_with, ends_with_lowercased, equals_lowercased};

verus! {

/// What a walk says of one entry below a root.
#[derive(Debug)]
pub struct WalkedEntry {
    pub is_file: bool,
    /// The extension, where there is one and it is text.
    pub extension: Option<String>,
    /// The name without the extension, where it is text.
    pub stem: Option<String>,
    /// The length in bytes, where it can be read.
    pub len: Option<u64>,
}

/// The text of an optional string, empty where there is none.
pub open spec fn text_or_empty(s: Option<String>) -> Seq<char> {
    match s {
        Some(s) => s@,
        None => seq![],
    }
}

/// Whether a name is that of a session file: one that ends in `.meta`, or in `.json` but
/// neither in `.ui.json` nor in `.rewind.json`, in capitals or not.
pub open spec fn is_session_name(extension: Seq<char>, stem: Seq<char>) -> bool {
    let ext = ascii_lowercase(extension);
    let name = ascii_lowercase(stem);
    ext == "meta"@ || (ext == "json"@ && !ends_with(name, ".ui"@) && !ends_with(name, ".rewind"@))
}

/// Whether an entry is a session file that is not too long.
pub open spec fn is_wanted(entry: WalkedEntry, max_file_size: u64) -> bool {
    &&& entry.is_file
    &&& is_session_name(text_or_empty(entry.extension), text_or_empty(entry.stem))
    &&& entry.len matches Some(len) && len <= max_file_size
}

/// Whether an extension and a stem are those of a session file.
fn named_like_a_session(extension: &str, stem: &str) -> (r: bool)
    ensures
        r == is_session_name(extension@, stem@),
{
    equals_lowercased(extension, "meta") || (equals_lowercased(extension, "json")
        && !ends_with_lowercased(stem, ".ui") && !ends_with_lowercased(stem, ".rewind"))
}

/// The text of an optional string, empty where there is none.
fn or_empty(s: &Option<String>) -> (r: &str)
    ensures
        r@ == text_or_empty(*s),
{
    match s {
        Some(s) => s.as_str(),
        None => {
            proof {
                reveal_strlit("");
                assert(""@ =~= seq![]);
            }
            ""
        },
    }
}

/// Whether an entry is a session file that is not too long.
pub fn wants_entry(entry: &WalkedEntry, max_file_size: u64) -> (r: bool)
    ensures
        r == is_wanted(*entry, max_file_size),
{
    entry.is_file && named_like_a_session(or_empty(&entry.extension), or_empty(&entry.stem)) && (
    match entry.len {
        Some(len) => len <= max_file_size,
        None => false,
    })
}

impl AtomCodeSource {
    /// Which entries of a walk are the session files, by a flag for each.
    pub fn meta_files(&self, entries: &Vec<WalkedEntry>) -> (r: Vec<bool>)
        ensures
            r@.len() == entries@.len(),
            forall|i: int|
                0 <= i < entries@.len() ==> #[trigger] r@[i] == is_wanted(
                    entries@[i],
                    self.spec_config().max_file_size,
                ),
    {
        let max_file_size: u64 = self.max_file_size();
        let mut out: Vec<bool> = Vec::new();
        let mut i: usize = 0;
        while i < entries.len()
            invariant
                i == out@.len() <= entries@.len(),
                max_file_size == self.spec_config().max_file_size,
                forall|j: int|
                    0 <= j < i ==> #[trigger] out@[j] == is_wanted(entries@[j], max_file_size),
            decreases entries@.len() - i,
        {
            out.push(wants_entry(&entries[i], max_file_size));
            i += 1;
        }
        out
    }

    /// Puts a scan together: the records in order, one error for each file without any, and the
    /// fingerprint of the files. An error where no root is a directory.
    pub fn scan(&self, is_dir: &Vec<bool>, files: Vec<ScannedFile>) -> (r: Result<
        (ScanOutput, Vec<UsageRecord>),
        ProviderError,
    >)
        requires
            self.known_roots() matches Some(roots) && is_dir@.len() == roots.len(),
            total_len(stats_of(files@)) <= u64::MAX,
        ensures
            match r {
                Ok((out, records)) => {
                    &&& flagged(self.known_roots()->0, is_dir@).len() > 0
                    &&& out.found_files == files@.len()
                    &&& out.fingerprint@ == files_fingerprint(stats_of(files@))
                    &&& texts(out.errors@) == scan_errors(files@)
                    &&& record_views(records@) == scan_records(files@)
                },
                Err(e) => e == ProviderError::DataDirNotFound(Provider::AtomCode) && flagged(
                    self.known_roots()->0,
                    is_dir@,
                ).len() == 0,
            },
    {
        if self.existing_roots(is_dir).len() == 0 {
            return Err(ProviderError::DataDirNotFound(Provider::AtomCode));
        }
        let found_files: u64 = files.len() as u64;
        let (stats, errors, records) = assemble(files);
        let fingerprint = fingerprint_of(&stats);
        Ok((ScanOutput { found_files, fingerprint, errors }, records))
    }

    /// The fingerprint that a scan of the same files reports. An error where no root is a
    /// directory.
    pub fn scan_fingerprint(&self, is_dir: &Vec<bool>, stats: &Vec<Option<FileStat>>) -> (r: Result<
        String,
        ProviderError,
    >)
        requires
            self.known_roots() matches Some(roots) && is_dir@.len() == roots.len(),
            total_len(stats@) <= u64::MAX,
        ensures
            match r {
                Ok(fingerprint) => fingerprint@ == files_fingerprint(stats@) && flagged(
                    self.known_roots()->0,
                    is_dir@,
                ).len() > 0,
                Err(e) => e == ProviderError::DataDirNotFound(Provider::AtomCode) && flagged(
                    self.known_roots()->0,
                    is_dir@,
                ).len() == 0,
            },
    {
        if self.existing_roots(is_dir).len() == 0 {
            return Err(ProviderError::DataDirNotFound(Provider::AtomCode));
        }
        Ok(fingerprint_of(stats))
    }
}

/// The small letters of a text are the text itself where it holds no capitals of ASCII.
proof fn lemma_small_letters(s: Seq<char>)
    requires
        forall|i: int| 0 <= i < s.len() ==> !('A' <= #[trigger] s[i] && s[i] <= 'Z'),
    ensures
        ascii_lowercase(s) == s,
{
    assert(ascii_lowercase(s) =~= s);
}

/// A session file has the extension `meta`, or `json` where its name ends neither in `.ui` nor in
/// `.rewind`; capitals of ASCII count as small letters.
pub proof fn session_files_are_told_by_their_names(extension: Seq<char>, stem: Seq<char>)
    ensures
        ascii_lowercase(extension) == "meta"@ ==> is_session_name(extension, stem),
        ascii_lowercase(extension) == "json"@ ==> (is_session_name(extension, stem) <==> !ends_with(
            ascii_lowercase(stem),
            ".ui"@,
        ) && !ends_with(ascii_lowercase(stem), ".rewind"@)),
        ascii_lowercase(extension) != "meta"@ && ascii_lowercase(extension) != "json"@
            ==> !is_session_name(extension, stem),
        is_session_name("meta"@, stem),
        !is_session_name(Seq::<char>::empty(), stem),
{
    reveal_strlit("meta");
    reveal_strlit("json");
    lemma_small_letters("meta"@);
    assert("json"@[0] != "meta"@[0]);
    assert(ascii_lowercase(Seq::<char>::empty()) =~= Seq::<char>::empty());
}

/// Names in capitals are taken like those in small letters.
pub proof fn capitals_do_not_matter(
    extension: Seq<char>,
    other_extension: Seq<char>,
    stem: Seq<char>,
    other_stem: Seq<char>,
)
    requires
        ascii_lowercase(extension) == ascii_lowercase(other_extension),
        ascii_lowercase(stem) == ascii_lowercase(other_stem),
    ensures
        is_session_name(extension, stem) == is_session_name(other_extension, other_stem),
{
}

/// An entry is wanted where it is a file with the name of a session, and its length is known and
/// within the limit.
pub proof fn wanted_entries_are_session_files_within_the_limit(
    entry: WalkedEntry,
    max_file_size: u64,
)
    ensures
        ({
            let extension = match entry.extension {
                Some(s) => s@,
                None => Seq::<char>::empty(),
            };
            let stem = match entry.stem {
                Some(s) => s@,
                None => Seq::<char>::empty(),
            };
            match entry.len {
                Some(len) => is_wanted(entry, max_file_size) <==> entry.is_file && is_session_name(
                    extension,
                    stem,
                ) && len <= max_file_size,
                None => !is_wanted(entry, max_file_size),
            }
        }),
{
}

/// A scan reports the files it was given, their fingerprint, the messages of those that failed and
/// the records of the others; it fails exactly where no root is a directory.
pub proof fn scan_reports_its_files(
    source: AtomCodeSource,
    is_dir: Vec<bool>,
    files: Vec<ScannedFile>,
    r: Result<(ScanOutput, Vec<UsageRecord>), ProviderError>,
)
    requires
        call_ensures(AtomCodeSource::scan, (&source, &is_dir, files), r),
        source.known_roots() matches Some(roots) && roots.len() == is_dir@.len(),
    ensures
        match r {
            Ok((out, records)) => {
                &&& exists|p: int| 0 <= p < is_dir@.len() && #[trigger] is_dir@[p]
                &&& out.found_files == files@.len()
                &&& out.fingerprint@ == files_fingerprint(stats_of(files@))
                &&& texts(out.errors@) == scan_errors(files@)
                &&& record_views(records@) == scan_records(files@)
            },
            Err(e) => e == ProviderError::DataDirNotFound(Provider::AtomCode) && forall|p: int|
                0 <= p < is_dir@.len() ==> !#[trigger] is_dir@[p],
        },
{
    let roots = source.known_roots()->0;
    flagged_are_kept_in_order(roots, is_dir@);
    lemma_no_rank_without_flags(is_dir@, roots.len() as int);
}

/// A fingerprint is that of the files, as a scan of them reports it; it fails where a scan does.
pub proof fn fingerprint_is_that_of_a_scan(
    source: AtomCodeSource,
    is_dir: Vec<bool>,
    stats: Vec<Option<FileStat>>,
    r: Result<String, ProviderError>,
)
    requires
        call_ensures(AtomCodeSource::scan_fingerprint, (&source, &is_dir, &stats), r),
        source.known_roots() matches Some(roots) && roots.len() == is_dir@.len(),
    ensures
        match r {
            Ok(text) => text@ == files_fingerprint(stats@) && exists|p: int|
                0 <= p < is_dir@.len() && #[trigger] is_dir@[p],
            Err(e) => e == ProviderError::DataDirNotFound(Provider::AtomCode) && forall|p: int|
                0 <= p < is_dir@.len() ==> !#[trigger] is_dir@[p],
        },
{
    let roots = source.known_roots()->0;
    flagged_are_kept_in_order(roots, is_dir@);
    lemma_no_rank_without_flags(is_dir@, roots.len() as int);
}

} // verus!
