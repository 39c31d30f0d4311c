//! AtomCode sessions.
//!
//! A session is kept in one of two formats. The per-call format carries, for each turn, the
//! calls of the models with their token counters; its turns are stamped in a sibling file of
//! lines. The aggregate format carries one token counter per turn, and names the model only in
//! the system prompt.

pub mod aggregate;
pub mod booking;
pub mod laws;
pub mod per_call;
pub mod prompt;
pub mod scan;
pub mod session;
pub mod stamps;
pub mod unified;

use vstd::prelude::*;
use crate::model::{
    flagged, flagged_are_kept_in_order, flagged_roots, lemma_rank_below, rank, set_flags, Provider,
    ProviderConfig, ProviderError, ScanRoot,
};

verus! {

/// The header of a session in the per-call format.
#[derive(Debug)]
pub struct AtomCodeMeta {
    pub id: Option<String>,
    pub working_dir: Option<String>,
    pub created_at: Option<i64>,
    pub updated_at: Option<i64>,
    pub turn_stats: Vec<AtomCodeTurnStat>,
}

/// One turn of a session.
#[derive(Debug)]
pub struct AtomCodeTurnStat {
    pub turn_id: Option<i64>,
    /// The tokens of the whole turn, read only where the turn lists no calls.
    pub used_tokens: Option<i64>,
    pub model_usage: Vec<AtomCodeModelUsage>,
}

/// One model call of a turn.
#[derive(Debug)]
pub struct AtomCodeModelUsage {
    pub provider_id: Option<String>,
    pub model_id: Option<String>,
    pub tokens: Option<AtomCodeTokens>,
}

/// The counters of a call. `cached_input` is no part of `input`.
#[derive(Debug)]
pub struct AtomCodeTokens {
    pub input: Option<i64>,
    pub output: Option<i64>,
    pub cached_input: Option<i64>,
}

/// One line of the sibling file that stamps the turns.
#[derive(Debug, Clone, Copy)]
pub struct AtomCodeJsonlLine {
    pub ts: Option<i64>,
    pub turn_id: Option<i64>,
}

/// The directories under the home directory where sessions are kept, outermost first.
pub fn sessions_suffix() -> (r: Vec<&'static str>)
    ensures
        r@.len() == 2,
        r@[0]@ == ".atomcode"@,
        r@[1]@ == "sessions"@,
{
    let mut r: Vec<&'static str> = Vec::new();
    r.push(".atomcode");
    r.push("sessions");
    r
}

/// The AtomCode adapter. The scan roots are found on the first scan and kept.
#[derive(Debug)]
pub struct AtomCodeSource {
    config: ProviderConfig,
    roots: Option<Vec<ScanRoot>>,
}

impl AtomCodeSource {
    /// The configuration of the adapter.
    pub closed spec fn spec_config(self) -> ProviderConfig {
        self.config
    }

    /// The roots that the first scan found, if there was one.
    pub closed spec fn known_roots(self) -> Option<Seq<ScanRoot>> {
        match self.roots {
            Some(roots) => Some(roots@),
            None => None,
        }
    }

    pub fn new(config: ProviderConfig) -> (r: AtomCodeSource)
        ensures
            r.spec_config() == config,
            r.known_roots() is None,
    {
        AtomCodeSource { config, roots: None }
    }

    /// The length up to which a session file is read.
    pub fn max_file_size(&self) -> (r: u64)
        ensures
            r == self.spec_config().max_file_size,
    {
        self.config.max_file_size
    }

    /// How deep below a root the session files are looked for.
    pub fn max_depth(&self) -> (r: usize)
        ensures
            r == self.spec_config().max_depth,
    {
        self.config.max_depth
    }

    /// Whether the next call of [`Self::roots`] looks at the discovered roots.
    pub fn needs_discovery(&self) -> (r: bool)
        ensures
            r == (self.known_roots() is None && self.spec_config().data_dir_override is None),
    {
        self.roots.is_none() && self.config.data_dir_override.is_none()
    }

    /// The scan roots: the override alone where there is one, else `discovered`. The first
    /// answer is kept for good.
    pub fn roots(&mut self, discovered: Vec<ScanRoot>) -> (r: &Vec<ScanRoot>)
        ensures
            final(self).spec_config() == old(self).spec_config(),
            final(self).known_roots() == Some(r@),
            old(self).known_roots() matches Some(kept) ==> r@ == kept,
            old(self).known_roots() is None ==> (match old(self).spec_config().data_dir_override {
                Some(dir) => r@ == seq![(ScanRoot { dir, label: None })],
                None => r@ == discovered@,
            }),
    {
        if self.roots.is_none() {
            let found: Vec<ScanRoot> = match &self.config.data_dir_override {
                Some(dir) => {
                    let mut one: Vec<ScanRoot> = Vec::new();
                    one.push(ScanRoot { dir: dir.clone(), label: None });
                    assert(one@ =~= seq![(ScanRoot { dir: *dir, label: None })]);
                    one
                },
                None => discovered,
            };
            self.roots = Some(found);
        }
        self.roots.as_ref().unwrap()
    }

    /// The roots that are directories, by a flag for each.
    pub fn existing_roots(&self, is_dir: &Vec<bool>) -> (r: Vec<ScanRoot>)
        requires
            self.known_roots() matches Some(roots) && is_dir@.len() == roots.len(),
        ensures
            r@ == flagged(self.known_roots()->0, is_dir@),
    {
        flagged_roots(self.roots.as_ref().unwrap(), is_dir)
    }

    pub fn provider(&self) -> (r: Provider)
        ensures
            r == Provider::AtomCode,
    {
        Provider::AtomCode
    }

    /// The directories that are there; an error where there is none.
    pub fn data_dirs(&self, is_dir: &Vec<bool>) -> (r: Result<Vec<String>, ProviderError>)
        requires
            self.known_roots() matches Some(roots) && is_dir@.len() == roots.len(),
        ensures
            match r {
                Ok(dirs) => dirs@ == flagged(self.known_roots()->0, is_dir@).map_values(
                    |root: ScanRoot| root.dir,
                ) && dirs@.len() > 0,
                Err(e) => e == ProviderError::DataDirNotFound(Provider::AtomCode) && flagged(
                    self.known_roots()->0,
                    is_dir@,
                ).len() == 0,
            },
    {
        let roots = self.existing_roots(is_dir);
        if roots.len() == 0 {
            return Err(ProviderError::DataDirNotFound(Provider::AtomCode));
        }
        let mut dirs: Vec<String> = Vec::new();
        let mut i: usize = 0;
        while i < roots.len()
            invariant
                i <= roots@.len(),
                dirs@ == roots@.take(i as int).map_values(|root: ScanRoot| root.dir),
            decreases roots@.len() - i,
        {
            let ghost before = dirs@;
            dirs.push(roots[i].dir.clone());
            assert(dirs@ =~= roots@.take(i + 1).map_values(|root: ScanRoot| root.dir));
            i += 1;
        }
        assert(roots@.take(roots@.len() as int) =~= roots@);
        Ok(dirs)
    }
}

/// Sessions are kept in the directory `sessions` of `.atomcode`.
pub proof fn sessions_lie_below_atomcode(r: Vec<&'static str>)
    requires
        call_ensures(sessions_suffix, (), r),
    ensures
        r@.len() == 2,
        r@[0]@ == ".atomcode"@,
        r@[1]@ == "sessions"@,
{
}

/// The first scan finds the roots: an override alone, without a label, or else those discovered.
/// They are kept for good.
pub proof fn roots_are_found_once(
    source: &mut AtomCodeSource,
    discovered: Vec<ScanRoot>,
    r: &Vec<ScanRoot>,
)
    requires
        call_ensures(AtomCodeSource::roots, (source, discovered), r),
    ensures
        final(source).known_roots() == Some(r@),
        final(source).spec_config() == old(source).spec_config(),
        old(source).known_roots() is Some ==> old(source).known_roots() == Some(r@),
        old(source).known_roots() is None && old(source).spec_config().data_dir_override is None
            ==> r@ == discovered@,
        old(source).known_roots() is None ==> (old(source).spec_config().data_dir_override matches
            Some(dir) ==> r@.len() == 1 && r@[0].dir == dir && r@[0].label is None),
{
}

/// The roots have to be discovered where none are known and there is no override.
pub proof fn override_needs_no_discovery(source: AtomCodeSource, r: bool)
    requires
        call_ensures(AtomCodeSource::needs_discovery, (&source,), r),
    ensures
        source.known_roots() is Some ==> !r,
        source.spec_config().data_dir_override is Some ==> !r,
        source.known_roots() is None && source.spec_config().data_dir_override is None ==> r,
{
}

/// A root counts where it is a directory: the data directories are those of the roots that are, in
/// order, and there is an error where none is.
pub proof fn data_dirs_are_the_roots_that_are_there(
    source: AtomCodeSource,
    is_dir: Vec<bool>,
    r: Result<Vec<String>, ProviderError>,
)
    requires
        call_ensures(AtomCodeSource::data_dirs, (&source, &is_dir), r),
        source.known_roots() matches Some(roots) && roots.len() == is_dir@.len(),
    ensures
        ({
            let roots = source.known_roots()->0;
            let chosen = set_flags(is_dir@);
            match r {
                Ok(dirs) => dirs@.len() > 0 && dirs@.len() == rank(chosen, roots.len() as int)
                    && forall|p: int|
                    0 <= p < roots.len() && is_dir@[p] ==> (#[trigger] roots[p]).dir == dirs@[rank(
                        chosen,
                        p,
                    ) as int],
                Err(e) => e == ProviderError::DataDirNotFound(Provider::AtomCode) && rank(
                    chosen,
                    roots.len() as int,
                ) == 0,
            }
        }),
{
    let roots = source.known_roots()->0;
    let chosen = set_flags(is_dir@);
    flagged_are_kept_in_order(roots, is_dir@);
    if let Ok(dirs) = r {
        assert forall|p: int| 0 <= p < roots.len() && is_dir@[p] implies (#[trigger] roots[p]).dir
            == dirs@[rank(chosen, p) as int] by {
            assert(chosen.contains(p));
            lemma_rank_below(chosen, p, roots.len() as int);
        }
    }
}

} // verus!
