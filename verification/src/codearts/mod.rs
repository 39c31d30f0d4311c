//! CodeArts messages.
//!
//! CodeArts keeps every session and message in one database. A message is a JSON document; the
//! ones of the assistant that completed a model call carry token counters.

pub mod messages;

use vstd::prelude::*;
use crate::files::{files_fingerprint, fingerprint_of, total_len, FileStat};
use crate::model::{
    flagged, flagged_are_kept_in_order, flagged_strings, lemma_no_rank_without_flags, rank,
    record_views, set_flags, texts, Provider, ProviderConfig, ProviderError, ScanOutput,
    UsageRecord,
};
use crate::scan::{assemble, scan_errors, scan_records, stats_of, ScannedFile};

verus! {

/// The name of the database.
pub fn db_file_name() -> (r: &'static str)
    ensures
        r@ == "opencode.db"@,
{
    "opencode.db"
}

/// Where the database may lie below the home directory, in the order of preference.
pub fn db_rel_paths() -> (r: Vec<&'static str>)
    ensures
        r@.len() == 4,
        r@[0]@ == ".local/share/.codeartsdoer/opencode.db"@,
        r@[1]@ == ".codeartsdoer/codearts-data/opencode.db"@,
        r@[2]@ == ".local/state/codeartsdoer/opencode.db"@,
        r@[3]@ == ".codeartsdoer/opencode.db"@,
{
    let mut r: Vec<&'static str> = Vec::new();
    r.push(".local/share/.codeartsdoer/opencode.db");
    r.push(".codeartsdoer/codearts-data/opencode.db");
    r.push(".local/state/codeartsdoer/opencode.db");
    r.push(".codeartsdoer/opencode.db");
    r
}

/// What a look at the file system found.
#[derive(Debug)]
pub struct DbProbe {
    /// The database in the override directory.
    pub override_db: String,
    pub override_db_is_file: bool,
    /// The paths below the home directory, none where there is no home directory.
    pub candidates: Vec<String>,
    /// For each candidate, whether it is a file.
    pub is_file: Vec<bool>,
}

/// The CodeArts adapter. The database paths are found on the first scan and kept.
#[derive(Debug)]
pub struct CodeArtsSource {
    config: ProviderConfig,
    db_paths: Option<Vec<String>>,
}

impl CodeArtsSource {
    /// The configuration of the adapter.
    pub closed spec fn spec_config(self) -> ProviderConfig {
        self.config
    }

    /// The paths that the first scan found, if there was one.
    pub closed spec fn known_paths(self) -> Option<Seq<String>> {
        match self.db_paths {
            Some(paths) => Some(paths@),
            None => None,
        }
    }

    pub fn new(config: ProviderConfig) -> (r: CodeArtsSource)
        ensures
            r.spec_config() == config,
            r.known_paths() is None,
    {
        CodeArtsSource { config, db_paths: None }
    }

    /// Whether the next call of [`Self::db_paths`] looks at the probe.
    pub fn needs_probe(&self) -> (r: bool)
        ensures
            r == (self.known_paths() is None),
    {
        self.db_paths.is_none()
    }

    /// The database paths. An override is the directory that holds the database, or stands for
    /// itself where the database is not there; without one they are the candidates below the
    /// home directory that are files. The first answer is kept for good.
    pub fn db_paths(&mut self, probe: DbProbe) -> (r: &Vec<String>)
        requires
            probe.candidates@.len() == probe.is_file@.len(),
        ensures
            final(self).spec_config() == old(self).spec_config(),
            final(self).known_paths() == Some(r@),
            old(self).known_paths() matches Some(kept) ==> r@ == kept,
            old(self).known_paths() is None ==> (match old(self).spec_config().data_dir_override {
                Some(dir) => if probe.override_db_is_file {
                    r@ == seq![probe.override_db]
                } else {
                    r@ == seq![dir]
                },
                None => r@ == flagged(probe.candidates@, probe.is_file@),
            }),
    {
        if self.db_paths.is_none() {
            let found: Vec<String> = match &self.config.data_dir_override {
                Some(dir) => {
                    let mut one: Vec<String> = Vec::new();
                    if probe.override_db_is_file {
                        one.push(probe.override_db);
                    } else {
                        one.push(dir.clone());
                    }
                    assert(one@ =~= seq![one@[0]]);
                    one
                },
                None => flagged_strings(&probe.candidates, &probe.is_file),
            };
            self.db_paths = Some(found);
        }
        self.db_paths.as_ref().unwrap()
    }

    /// The databases that are files, by a flag for each path.
    pub fn existing_db_paths(&self, is_file: &Vec<bool>) -> (r: Vec<String>)
        requires
            self.known_paths() matches Some(paths) && is_file@.len() == paths.len(),
        ensures
            r@ == flagged(self.known_paths()->0, is_file@),
    {
        flagged_strings(self.db_paths.as_ref().unwrap(), is_file)
    }

    pub fn provider(&self) -> (r: Provider)
        ensures
            r == Provider::CodeArts,
    {
        Provider::CodeArts
    }

    /// The databases that are there; an error where there is none.
    pub fn data_dirs(&self, is_file: &Vec<bool>) -> (r: Result<Vec<String>, ProviderError>)
        requires
            self.known_paths() matches Some(paths) && is_file@.len() == paths.len(),
        ensures
            match r {
                Ok(paths) => paths@ == flagged(self.known_paths()->0, is_file@) && paths@.len() > 0,
                Err(e) => e == ProviderError::DataDirNotFound(Provider::CodeArts) && flagged(
                    self.known_paths()->0,
                    is_file@,
                ).len() == 0,
            },
    {
        let paths = self.existing_db_paths(is_file);
        if paths.len() == 0 {
            Err(ProviderError::DataDirNotFound(Provider::CodeArts))
        } else {
            Ok(paths)
        }
    }

    /// Puts a scan together: the records of the databases in order, one error for each that
    /// could not be read, and the fingerprint of the databases. What counts as found are the
    /// records. An error where no database is there.
    pub fn scan(&self, is_file: &Vec<bool>, databases: Vec<ScannedFile>) -> (r: Result<
        (ScanOutput, Vec<UsageRecord>),
        ProviderError,
    >)
        requires
            self.known_paths() matches Some(paths) && is_file@.len() == paths.len(),
            total_len(stats_of(databases@)) <= u64::MAX,
        ensures
            match r {
                Ok((out, records)) => {
                    &&& flagged(self.known_paths()->0, is_file@).len() > 0
                    &&& out.found_files == scan_records(databases@).len()
                    &&& out.fingerprint@ == files_fingerprint(stats_of(databases@))
                    &&& texts(out.errors@) == scan_errors(databases@)
                    &&& record_views(records@) == scan_records(databases@)
                },
                Err(e) => e == ProviderError::DataDirNotFound(Provider::CodeArts) && flagged(
                    self.known_paths()->0,
                    is_file@,
                ).len() == 0,
            },
    {
        if self.existing_db_paths(is_file).len() == 0 {
            return Err(ProviderError::DataDirNotFound(Provider::CodeArts));
        }
        let (stats, errors, records) = assemble(databases);
        let found_files: u64 = records.len() as u64;
        let fingerprint = fingerprint_of(&stats);
        assert(record_views(records@).len() == records@.len());
        Ok((ScanOutput { found_files, fingerprint, errors }, records))
    }

    /// The fingerprint that a scan of the same databases reports. An error where no database is
    /// there.
    pub fn scan_fingerprint(
        &self,
        is_file: &Vec<bool>,
        stats: &Vec<Option<FileStat>>,
    ) -> (r: Result<String, ProviderError>)
        requires
            self.known_paths() matches Some(paths) && is_file@.len() == paths.len(),
            total_len(stats@) <= u64::MAX,
        ensures
            match r {
                Ok(fingerprint) => fingerprint@ == files_fingerprint(stats@) && flagged(
                    self.known_paths()->0,
                    is_file@,
                ).len() > 0,
                Err(e) => e == ProviderError::DataDirNotFound(Provider::CodeArts) && flagged(
                    self.known_paths()->0,
                    is_file@,
                ).len() == 0,
            },
    {
        if self.existing_db_paths(is_file).len() == 0 {
            return Err(ProviderError::DataDirNotFound(Provider::CodeArts));
        }
        Ok(fingerprint_of(stats))
    }
}

/// The database is looked for at four places below the home directory, in this order.
pub proof fn database_has_four_places(name: &'static str, r: Vec<&'static str>)
    requires
        call_ensures(db_file_name, (), name),
        call_ensures(db_rel_paths, (), r),
    ensures
        name@ == "opencode.db"@,
        r@.len() == 4,
        r@[0]@ == ".local/share/.codeartsdoer/opencode.db"@,
        r@[1]@ == ".codeartsdoer/codearts-data/opencode.db"@,
        r@[2]@ == ".local/state/codeartsdoer/opencode.db"@,
        r@[3]@ == ".codeartsdoer/opencode.db"@,
{
}

/// The first scan finds the databases: the one in the override directory, or that directory itself
/// where the database is not in it; without an override those of the candidates that are files, in
/// order. They are kept for good.
pub proof fn databases_are_found_once(
    source: &mut CodeArtsSource,
    probe: DbProbe,
    r: &Vec<String>,
)
    requires
        call_ensures(CodeArtsSource::db_paths, (source, probe), r),
        probe.candidates@.len() == probe.is_file@.len(),
    ensures
        final(source).known_paths() == Some(r@),
        final(source).spec_config() == old(source).spec_config(),
        old(source).known_paths() is Some ==> old(source).known_paths() == Some(r@),
        old(source).known_paths() is None ==> (match old(source).spec_config().data_dir_override {
            Some(dir) => r@.len() == 1 && r@[0] == if probe.override_db_is_file {
                probe.override_db
            } else {
                dir
            },
            None => {
                &&& r@.len() == rank(set_flags(probe.is_file@), probe.candidates@.len() as int)
                &&& forall|p: int|
                    0 <= p < probe.candidates@.len() && probe.is_file@[p] ==> (
                    #[trigger] probe.candidates@[p]) == r@[rank(
                        set_flags(probe.is_file@),
                        p,
                    ) as int]
            },
        }),
{
    flagged_are_kept_in_order(probe.candidates@, probe.is_file@);
}

/// The databases that are files count, in order, and there is an error where none is.
pub proof fn data_dirs_are_the_databases_that_are_there(
    source: CodeArtsSource,
    is_file: Vec<bool>,
    r: Result<Vec<String>, ProviderError>,
)
    requires
        call_ensures(CodeArtsSource::data_dirs, (&source, &is_file), r),
        source.known_paths() matches Some(paths) && paths.len() == is_file@.len(),
    ensures
        ({
            let paths = source.known_paths()->0;
            let chosen = set_flags(is_file@);
            match r {
                Ok(found) => found@.len() > 0 && found@.len() == rank(chosen, paths.len() as int)
                    && forall|p: int|
                    0 <= p < paths.len() && is_file@[p] ==> (#[trigger] paths[p]) == found@[rank(
                        chosen,
                        p,
                    ) as int],
                Err(e) => e == ProviderError::DataDirNotFound(Provider::CodeArts) && rank(
                    chosen,
                    paths.len() as int,
                ) == 0,
            }
        }),
{
    flagged_are_kept_in_order(source.known_paths()->0, is_file@);
}

/// A scan reports how many records it found, the fingerprint of the databases, the messages of
/// those that failed and the records of the others; it fails exactly where no database is there.
pub proof fn scan_reports_its_databases(
    source: CodeArtsSource,
    is_file: Vec<bool>,
    databases: Vec<ScannedFile>,
    r: Result<(ScanOutput, Vec<UsageRecord>), ProviderError>,
)
    requires
        call_ensures(CodeArtsSource::scan, (&source, &is_file, databases), r),
        source.known_paths() matches Some(paths) && paths.len() == is_file@.len(),
    ensures
        match r {
            Ok((out, records)) => {
                &&& exists|p: int| 0 <= p < is_file@.len() && #[trigger] is_file@[p]
                &&& out.found_files == records@.len()
                &&& out.fingerprint@ == files_fingerprint(stats_of(databases@))
                &&& texts(out.errors@) == scan_errors(databases@)
                &&& record_views(records@) == scan_records(databases@)
            },
            Err(e) => e == ProviderError::DataDirNotFound(Provider::CodeArts) && forall|p: int|
                0 <= p < is_file@.len() ==> !#[trigger] is_file@[p],
        },
{
    let paths = source.known_paths()->0;
    flagged_are_kept_in_order(paths, is_file@);
    lemma_no_rank_without_flags(is_file@, paths.len() as int);
    if let Ok((out, records)) = r {
        assert(record_views(records@).len() == records@.len());
    }
}

/// A fingerprint is that of the databases, as a scan of them reports it; it fails where a scan
/// does.
pub proof fn fingerprint_is_that_of_a_scan(
    source: CodeArtsSource,
    is_file: Vec<bool>,
    stats: Vec<Option<FileStat>>,
    r: Result<String, ProviderError>,
)
    requires
        call_ensures(CodeArtsSource::scan_fingerprint, (&source, &is_file, &stats), r),
        source.known_paths() matches Some(paths) && paths.len() == is_file@.len(),
    ensures
        match r {
            Ok(text) => text@ == files_fingerprint(stats@) && exists|p: int|
                0 <= p < is_file@.len() && #[trigger] is_file@[p],
            Err(e) => e == ProviderError::DataDirNotFound(Provider::CodeArts) && forall|p: int|
                0 <= p < is_file@.len() ==> !#[trigger] is_file@[p],
        },
{
    let paths = source.known_paths()->0;
    flagged_are_kept_in_order(paths, is_file@);
    lemma_no_rank_without_flags(is_file@, paths.len() as int);
}

} // verus!
