//! Usage records and what every adapter shares.

use vstd::prelude::*;
use vstd::string::*;

verus! {

/// The tool whose data an adapter reads. The tools without an adapter in this crate are told
/// apart by number.
#[derive(Debug, Clone, Copy, PartialEq, Eq, Structural)]
pub enum Provider {
    AtomCode,
    CodeArts,
    Other(u32),
}

/// The tokens of one model call. All counters are separate: the cache counters are no part of
/// `input_tokens`.
#[derive(Debug)]
pub struct Usage {
    pub model: String,
    /// Milliseconds since the Unix epoch, in UTC.
    pub started_at: i64,
    pub input_tokens: u64,
    pub output_tokens: u64,
    pub cache_read_tokens: u64,
    pub cache_write_tokens: u64,
    /// Zero until the scan pipeline prices the record.
    pub cost_micros: u64,
}

/// One record of the usage history.
#[derive(Debug)]
pub struct UsageRecord {
    pub provider: Provider,
    pub project: String,
    pub session_id: String,
    pub usage: Usage,
    pub raw_bytes: u64,
    /// The key by which the history drops duplicates.
    pub fingerprint: String,
}

/// The mathematical value of a [`UsageRecord`].
#[verifier::ext_equal]
pub struct RecordView {
    pub provider: Provider,
    pub project: Seq<char>,
    pub session_id: Seq<char>,
    pub model: Seq<char>,
    pub started_at: i64,
    pub input_tokens: u64,
    pub output_tokens: u64,
    pub cache_read_tokens: u64,
    pub cache_write_tokens: u64,
    pub cost_micros: u64,
    pub raw_bytes: u64,
    pub fingerprint: Seq<char>,
}

impl View for UsageRecord {
    type V = RecordView;

    open spec fn view(&self) -> RecordView {
        RecordView {
            provider: self.provider,
            project: self.project@,
            session_id: self.session_id@,
            model: self.usage.model@,
            started_at: self.usage.started_at,
            input_tokens: self.usage.input_tokens,
            output_tokens: self.usage.output_tokens,
            cache_read_tokens: self.usage.cache_read_tokens,
            cache_write_tokens: self.usage.cache_write_tokens,
            cost_micros: self.usage.cost_micros,
            raw_bytes: self.raw_bytes,
            fingerprint: self.fingerprint@,
        }
    }
}

impl RecordView {
    /// All tokens of a record.
    pub open spec fn tokens(self) -> int {
        self.input_tokens + self.output_tokens + self.cache_read_tokens + self.cache_write_tokens
    }

    /// The token counters of a record.
    pub open spec fn counters(self) -> Counters {
        Counters {
            input: self.input_tokens as int,
            output: self.output_tokens as int,
            cache_read: self.cache_read_tokens as int,
            cache_write: self.cache_write_tokens as int,
        }
    }
}

/// Tokens by what they were used for.
pub struct Counters {
    pub input: int,
    pub output: int,
    pub cache_read: int,
    pub cache_write: int,
}

impl Counters {
    /// No tokens.
    pub open spec fn none() -> Counters {
        Counters { input: 0, output: 0, cache_read: 0, cache_write: 0 }
    }

    /// The tokens of both, each counter with its like.
    pub open spec fn plus(self, other: Counters) -> Counters {
        Counters {
            input: self.input + other.input,
            output: self.output + other.output,
            cache_read: self.cache_read + other.cache_read,
            cache_write: self.cache_write + other.cache_write,
        }
    }
}

/// The values of a run of records.
pub open spec fn record_views(records: Seq<UsageRecord>) -> Seq<RecordView> {
    records.map_values(|r: UsageRecord| r@)
}

/// All tokens of a run of records.
pub open spec fn total_counters(records: Seq<RecordView>) -> Counters
    decreases records.len(),
{
    if records.len() == 0 {
        Counters::none()
    } else {
        total_counters(records.drop_last()).plus(records.last().counters())
    }
}

/// The text in an optional string.
pub open spec fn opt_text(s: Option<String>) -> Option<Seq<char>> {
    match s {
        Some(s) => Some(s@),
        None => None,
    }
}

/// A name: what is missing or empty is `default`.
pub open spec fn named(name: Option<Seq<char>>, default: Seq<char>) -> Seq<char> {
    match name {
        Some(s) => if s.len() > 0 {
            s
        } else {
            default
        },
        None => default,
    }
}

/// A name: what is missing or empty is `default`.
pub fn name_or(name: &Option<String>, default: &str) -> (r: String)
    ensures
        r@ == named(opt_text(*name), default@),
        match *name {
            Some(s) => if s@.len() > 0 {
                r@ == s@
            } else {
                r@ == default@
            },
            None => r@ == default@,
        },
{
    match name {
        Some(s) => if s.as_str().is_empty() {
            default.to_owned()
        } else {
            s.clone()
        },
        None => default.to_owned(),
    }
}

impl UsageRecord {
    pub fn new(
        provider: Provider,
        project: String,
        session_id: String,
        usage: Usage,
        raw_bytes: u64,
        fingerprint: String,
    ) -> (r: UsageRecord)
        ensures
            r == (UsageRecord { provider, project, session_id, usage, raw_bytes, fingerprint }),
    {
        UsageRecord { provider, project, session_id, usage, raw_bytes, fingerprint }
    }
}

/// How an adapter finds its data.
#[derive(Debug)]
pub struct ProviderConfig {
    pub provider: Provider,
    /// A directory to read in place of the discovered ones.
    pub data_dir_override: Option<String>,
    pub max_depth: usize,
    pub max_file_size: u64,
}

impl Default for ProviderConfig {
    /// No override and no limits.
    fn default() -> (r: ProviderConfig)
        ensures
            r.data_dir_override is None,
            r.max_depth == usize::MAX,
            r.max_file_size == u64::MAX,
            r.provider == Provider::AtomCode,
    {
        ProviderConfig {
            provider: Provider::AtomCode,
            data_dir_override: None,
            max_depth: usize::MAX,
            max_file_size: u64::MAX,
        }
    }
}

/// A directory to scan. The label tells the roots of different systems apart.
#[derive(Debug)]
pub struct ScanRoot {
    pub dir: String,
    pub label: Option<String>,
}

/// Why an adapter has nothing to read.
#[derive(Debug, Clone, Copy, PartialEq, Eq, Structural)]
pub enum ProviderError {
    DataDirNotFound(Provider),
}

/// What a scan reports besides its records.
#[derive(Debug)]
pub struct ScanOutput {
    pub found_files: u64,
    pub fingerprint: String,
    pub errors: Vec<String>,
}

/// The texts of a run of strings.
pub open spec fn texts(strings: Seq<String>) -> Seq<Seq<char>> {
    strings.map_values(|s: String| s@)
}

/// The elements whose flag is set, in order.
pub open spec fn flagged<T>(items: Seq<T>, flags: Seq<bool>) -> Seq<T>
    decreases items.len(),
{
    if items.len() == 0 {
        seq![]
    } else {
        let front = flagged(items.drop_last(), flags);
        if flags[items.len() - 1] {
            front.push(items.last())
        } else {
            front
        }
    }
}

impl ScanRoot {
    /// The same root once more.
    pub fn duplicate(&self) -> (r: ScanRoot)
        ensures
            r == *self,
    {
        let label: Option<String> = match &self.label {
            Some(label) => Some(label.clone()),
            None => None,
        };
        ScanRoot { dir: self.dir.clone(), label }
    }
}

/// The roots whose flag is set, in order.
pub fn flagged_roots(roots: &Vec<ScanRoot>, flags: &Vec<bool>) -> (r: Vec<ScanRoot>)
    requires
        flags@.len() == roots@.len(),
    ensures
        r@ == flagged(roots@, flags@),
{
    let mut out: Vec<ScanRoot> = Vec::new();
    let mut i: usize = 0;
    while i < roots.len()
        invariant
            i <= roots@.len() == flags@.len(),
            out@ == flagged(roots@.take(i as int), flags@),
        decreases roots@.len() - i,
    {
        assert(roots@.take(i + 1).drop_last() =~= roots@.take(i as int));
        if flags[i] {
            out.push(roots[i].duplicate());
        }
        i += 1;
    }
    assert(roots@.take(roots@.len() as int) =~= roots@);
    out
}

/// The strings whose flag is set, in order.
pub fn flagged_strings(strings: &Vec<String>, flags: &Vec<bool>) -> (r: Vec<String>)
    requires
        flags@.len() == strings@.len(),
    ensures
        r@ == flagged(strings@, flags@),
{
    let mut out: Vec<String> = Vec::new();
    let mut i: usize = 0;
    while i < strings.len()
        invariant
            i <= strings@.len() == flags@.len(),
            out@ == flagged(strings@.take(i as int), flags@),
        decreases strings@.len() - i,
    {
        assert(strings@.take(i + 1).drop_last() =~= strings@.take(i as int));
        if flags[i] {
            out.push(strings[i].clone());
        }
        i += 1;
    }
    assert(strings@.take(strings@.len() as int) =~= strings@);
    out
}

/// A run of records followed by another holds the tokens of both.
pub proof fn lemma_total_counters_append(a: Seq<RecordView>, b: Seq<RecordView>)
    ensures
        total_counters(a + b) == total_counters(a).plus(total_counters(b)),
    decreases b.len(),
{
    if b.len() == 0 {
        assert(a + b =~= a);
    } else {
        lemma_total_counters_append(a, b.drop_last());
        assert((a + b).drop_last() =~= a + b.drop_last());
    }
}

/// The value of a record is what its fields hold, each under its own name.
pub proof fn record_value_is_its_fields(r: UsageRecord)
    ensures
        r@.provider == r.provider,
        r@.project == r.project@,
        r@.session_id == r.session_id@,
        r@.model == r.usage.model@,
        r@.started_at == r.usage.started_at,
        r@.input_tokens == r.usage.input_tokens,
        r@.output_tokens == r.usage.output_tokens,
        r@.cache_read_tokens == r.usage.cache_read_tokens,
        r@.cache_write_tokens == r.usage.cache_write_tokens,
        r@.cost_micros == r.usage.cost_micros,
        r@.raw_bytes == r.raw_bytes,
        r@.fingerprint == r.fingerprint@,
{
}

/// A run of records has a value for each, in order, and a run of strings a text for each.
pub proof fn runs_are_taken_one_by_one(
    records: Seq<UsageRecord>,
    i: int,
    strings: Seq<String>,
    j: int,
)
    requires
        0 <= i < records.len(),
        0 <= j < strings.len(),
    ensures
        record_views(records).len() == records.len(),
        record_views(records)[i] == records[i]@,
        texts(strings).len() == strings.len(),
        texts(strings)[j] == strings[j]@,
{
}

/// An optional string has a text exactly where there is a string, and it is the string's.
pub proof fn optional_text_is_the_strings(s: String)
    ensures
        opt_text(Some(s)) == Some(s@),
        opt_text(None) == None::<Seq<char>>,
{
}

/// A name that is there and not empty is kept; the default stands in for any other.
pub proof fn default_stands_in_for_no_name(name: Seq<char>, default: Seq<char>)
    ensures
        name.len() > 0 ==> named(Some(name), default) == name,
        name.len() == 0 ==> named(Some(name), default) == default,
        named(None, default) == default,
{
}

/// How many of the numbers from zero up to `n`, without `n`, are chosen.
pub open spec fn rank(chosen: Set<int>, n: int) -> nat
    decreases n,
{
    if n <= 0 {
        0
    } else {
        rank(chosen, n - 1) + if chosen.contains(n - 1) {
            1nat
        } else {
            0
        }
    }
}

/// The rank of a number depends on the smaller ones only.
pub proof fn lemma_rank_agrees(a: Set<int>, b: Set<int>, n: int)
    requires
        forall|p: int| 0 <= p < n ==> (#[trigger] a.contains(p) == b.contains(p)),
    ensures
        rank(a, n) == rank(b, n),
    decreases n,
{
    if n > 0 {
        lemma_rank_agrees(a, b, n - 1);
        assert(a.contains(n - 1) == b.contains(n - 1));
    }
}

/// A chosen number has a lower rank than any larger number.
pub proof fn lemma_rank_below(chosen: Set<int>, p: int, n: int)
    requires
        0 <= p < n,
    ensures
        rank(chosen, p) <= rank(chosen, n),
        chosen.contains(p) ==> rank(chosen, p) < rank(chosen, n),
    decreases n,
{
    if p < n - 1 {
        lemma_rank_below(chosen, p, n - 1);
    }
}

/// The places whose flag is set.
pub open spec fn set_flags(flags: Seq<bool>) -> Set<int> {
    Set::new(|p: int| 0 <= p < flags.len() && flags[p])
}

/// What is flagged is kept, in order, and nothing else is: there are as many as flags that are set,
/// and each stands behind as many as flags are set before its own.
pub proof fn flagged_are_kept_in_order<T>(items: Seq<T>, flags: Seq<bool>)
    requires
        items.len() <= flags.len(),
    ensures
        flagged(items, flags).len() == rank(set_flags(flags), items.len() as int),
        forall|p: int|
            0 <= p < items.len() && flags[p] ==> #[trigger] items[p] == flagged(items, flags)[rank(
                set_flags(flags),
                p,
            ) as int],
    decreases items.len(),
{
    if items.len() > 0 {
        let front = items.drop_last();
        let chosen = set_flags(flags);
        flagged_are_kept_in_order(front, flags);
        assert forall|p: int| 0 <= p < items.len() && flags[p] implies #[trigger] items[p]
            == flagged(items, flags)[rank(chosen, p) as int] by {
            if p < front.len() {
                assert(chosen.contains(p));
                lemma_rank_below(chosen, p, front.len() as int);
                assert(front[p] == items[p]);
            }
        }
    }
}

/// There are flagged items exactly where a flag is set.
pub proof fn lemma_no_rank_without_flags(flags: Seq<bool>, n: int)
    requires
        0 <= n <= flags.len(),
    ensures
        rank(set_flags(flags), n) > 0 <==> exists|p: int| 0 <= p < n && #[trigger] flags[p],
    decreases n,
{
    if n > 0 {
        lemma_no_rank_without_flags(flags, n - 1);
        assert(set_flags(flags).contains(n - 1) == flags[n - 1]);
        if rank(set_flags(flags), n - 1) > 0 {
            let p = choose|p: int| 0 <= p < n - 1 && #[trigger] flags[p];
            assert(flags[p]);
        }
        if exists|p: int| 0 <= p < n && #[trigger] flags[p] {
            let p = choose|p: int| 0 <= p < n && #[trigger] flags[p];
            if p < n - 1 {
                assert(flags[p]);
            }
        }
    }
}

} // verus!
