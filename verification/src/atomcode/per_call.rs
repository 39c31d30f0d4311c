//! Sessions in the per-call format.

use std::collections::HashMap;

use vstd::prelude::*;
use vstd::string::*;
use crate::atomcode::{AtomCodeMeta, AtomCodeModelUsage, AtomCodeTurnStat};
use crate::clock::{in_calendar, instant_or, reaches, started_at, utc_now};
use crate::model::{
    name_or, named, opt_text, record_views, Provider, RecordView, Usage, UsageRecord,
};
use crate::paths::{may_be_file_name, path_file_name, project_of};
use crate::text::{blank, decimal, decimal_i64, decimal_int, decimal_u64};

verus! {

/// The file that a session is kept in.
#[derive(Debug)]
pub struct SessionFile {
    /// The path as error messages show it.
    pub path: String,
    /// The name without its extension, where it is text.
    pub stem: Option<String>,
    /// The path below the scan root, behind the label of the root where it has one.
    pub rel: String,
    /// When the file was last changed, in milliseconds; 0 where that is not known.
    pub mtime_ms: i64,
}

/// What the records of one session have in common.
pub struct Session {
    pub project: String,
    pub session_id: String,
    pub rel: String,
    pub fallback_ts: i64,
    pub turn_bytes: u64,
    pub now: i64,
}

/// The mathematical value of a [`Session`].
#[verifier::ext_equal]
pub struct SessionView {
    pub project: Seq<char>,
    pub session_id: Seq<char>,
    pub rel: Seq<char>,
    pub fallback_ts: i64,
    pub turn_bytes: u64,
    pub now: i64,
}

impl View for Session {
    type V = SessionView;

    open spec fn view(&self) -> SessionView {
        SessionView {
            project: self.project@,
            session_id: self.session_id@,
            rel: self.rel@,
            fallback_ts: self.fallback_ts,
            turn_bytes: self.turn_bytes,
            now: self.now,
        }
    }
}

/// A counter: what is missing or negative counts as zero.
pub open spec fn counted(n: Option<i64>) -> u64 {
    match n {
        Some(v) => if v > 0 {
            v as u64
        } else {
            0
        },
        None => 0,
    }
}

/// The identity of a session: its own, or else the name of its file.
pub open spec fn session_identity(id: Option<Seq<char>>, stem: Option<Seq<char>>) -> Seq<char> {
    named(
        id,
        match stem {
            Some(s) => s,
            None => "unknown"@,
        },
    )
}

/// The stamp of a session: its last change, or its creation, or the last change of its file.
pub open spec fn session_stamp(updated: Option<i64>, created: Option<i64>, mtime: i64) -> i64 {
    match updated {
        Some(ts) => ts,
        None => match created {
            Some(ts) => ts,
            None => mtime,
        },
    }
}

/// When a turn started: its own start, or the stamp of the session.
pub open spec fn turn_start(s: SessionView, starts: Map<i64, i64>, turn: i64) -> i64 {
    instant_or(
        if starts.contains_key(turn) {
            starts[turn]
        } else {
            s.fallback_ts
        },
        s.now,
    )
}

/// The share of one of `n` parts in `bytes`.
pub open spec fn share(bytes: u64, n: nat) -> u64 {
    if n == 0 {
        bytes
    } else {
        (bytes as nat / n) as u64
    }
}

/// The key of a record: the file, the turn and the place in the turn.
pub open spec fn turn_key(rel: Seq<char>, turn: i64, place: Seq<char>) -> Seq<char> {
    rel + ":"@ + decimal_int(turn as int) + ":"@ + place
}

/// The number of a turn.
pub open spec fn turn_number(turn: AtomCodeTurnStat) -> i64 {
    match turn.turn_id {
        Some(id) => id,
        None => 0,
    }
}

/// The record of a turn that lists no calls.
pub open spec fn uncalled_record(
    s: SessionView,
    starts: Map<i64, i64>,
    turn: AtomCodeTurnStat,
) -> RecordView {
    RecordView {
        provider: Provider::AtomCode,
        project: s.project,
        session_id: s.session_id,
        model: "unknown"@,
        started_at: turn_start(s, starts, turn_number(turn)),
        input_tokens: counted(turn.used_tokens),
        output_tokens: 0,
        cache_read_tokens: 0,
        cache_write_tokens: 0,
        cost_micros: 0,
        raw_bytes: s.turn_bytes,
        fingerprint: turn_key(s.rel, turn_number(turn), "legacy"@),
    }
}

/// The tokens of a call: input, output and cache reads.
pub open spec fn call_tokens(call: AtomCodeModelUsage) -> (u64, u64, u64) {
    match call.tokens {
        Some(t) => (counted(t.input), counted(t.output), counted(t.cached_input)),
        None => (0, 0, 0),
    }
}

/// The record of the call at `index` of a turn of `calls` calls.
pub open spec fn call_record(
    s: SessionView,
    starts: Map<i64, i64>,
    turn: i64,
    calls: nat,
    index: int,
    call: AtomCodeModelUsage,
) -> RecordView {
    RecordView {
        provider: Provider::AtomCode,
        project: s.project,
        session_id: s.session_id,
        model: named(opt_text(call.model_id), "unknown"@),
        started_at: turn_start(s, starts, turn),
        input_tokens: call_tokens(call).0,
        output_tokens: call_tokens(call).1,
        cache_read_tokens: call_tokens(call).2,
        cache_write_tokens: 0,
        cost_micros: 0,
        raw_bytes: share(s.turn_bytes, calls),
        fingerprint: turn_key(s.rel, turn, decimal(index as nat)),
    }
}

/// Whether a call used any tokens.
pub open spec fn call_counts(call: AtomCodeModelUsage) -> bool {
    call_tokens(call) != (0u64, 0u64, 0u64)
}

/// The records of the first calls of a turn of `calls` calls.
pub open spec fn call_records(
    s: SessionView,
    starts: Map<i64, i64>,
    turn: i64,
    calls: nat,
    first: Seq<AtomCodeModelUsage>,
) -> Seq<RecordView>
    decreases first.len(),
{
    if first.len() == 0 {
        seq![]
    } else {
        let before = call_records(s, starts, turn, calls, first.drop_last());
        if call_counts(first.last()) {
            before.push(call_record(s, starts, turn, calls, first.len() - 1, first.last()))
        } else {
            before
        }
    }
}

/// The records of a turn: one for each call that used tokens. A turn that lists no calls has
/// one record, under an unknown model, where it used tokens at all.
pub open spec fn turn_records(
    s: SessionView,
    starts: Map<i64, i64>,
    turn: AtomCodeTurnStat,
) -> Seq<RecordView> {
    if turn.model_usage@.len() > 0 {
        call_records(
            s,
            starts,
            turn_number(turn),
            turn.model_usage@.len(),
            turn.model_usage@,
        )
    } else if counted(turn.used_tokens) > 0 {
        seq![uncalled_record(s, starts, turn)]
    } else {
        seq![]
    }
}

/// The records of a run of turns.
pub open spec fn turns_records(
    s: SessionView,
    starts: Map<i64, i64>,
    turns: Seq<AtomCodeTurnStat>,
) -> Seq<RecordView>
    decreases turns.len(),
{
    if turns.len() == 0 {
        seq![]
    } else {
        turns_records(s, starts, turns.drop_last()) + turn_records(s, starts, turns.last())
    }
}

/// What the records of a session in the per-call format have in common.
pub open spec fn meta_session(
    meta: AtomCodeMeta,
    file: SessionFile,
    dir_name: Option<Seq<char>>,
    raw_len: u64,
    now: i64,
) -> SessionView {
    SessionView {
        project: project_of(opt_text(meta.working_dir), dir_name),
        session_id: session_identity(opt_text(meta.id), opt_text(file.stem)),
        rel: file.rel@,
        fallback_ts: session_stamp(meta.updated_at, meta.created_at, file.mtime_ms),
        turn_bytes: share(raw_len, meta.turn_stats@.len()),
        now,
    }
}

/// A counter: what is missing or negative counts as zero.
pub fn count(n: Option<i64>) -> (r: u64)
    ensures
        r == counted(n),
{
    match n {
        Some(v) => if v > 0 {
            v as u64
        } else {
            0
        },
        None => 0,
    }
}

/// The identity of a session: its own, or else the name of its file.
pub fn identify(id: &Option<String>, stem: &Option<String>) -> (r: String)
    ensures
        r@ == session_identity(opt_text(*id), opt_text(*stem)),
{
    match stem {
        Some(stem) => name_or(id, stem.as_str()),
        None => name_or(id, "unknown"),
    }
}

/// The project of a session, by its directory and the last component of that.
pub fn project_from(dir: &Option<String>, dir_name: &Option<String>) -> (r: String)
    ensures
        r@ == project_of(opt_text(*dir), opt_text(*dir_name)),
{
    if let Some(dir) = dir {
        if !blank(dir.as_str()) {
            if let Some(name) = dir_name {
                return name.clone();
            }
        }
    }
    "unknown".to_owned()
}

/// The stamp of a session.
pub fn stamp_or(updated: Option<i64>, created: Option<i64>, mtime: i64) -> (r: i64)
    ensures
        r == session_stamp(updated, created, mtime),
{
    match updated {
        Some(ts) => ts,
        None => match created {
            Some(ts) => ts,
            None => mtime,
        },
    }
}

/// The share of one of `n` parts in `bytes`.
pub fn share_of(bytes: u64, n: usize) -> (r: u64)
    ensures
        r == share(bytes, n as nat),
{
    if n == 0 {
        bytes
    } else {
        let parts: u64 = n as u64;
        proof {
            assert(bytes / parts <= bytes) by (nonlinear_arith)
                requires
                    parts > 0,
            ;
        }
        bytes / parts
    }
}

/// The key of a record.
pub(crate) fn key_of(rel: &str, turn: i64, place: &str) -> (r: String)
    ensures
        r@ == turn_key(rel@, turn, place@),
{
    let mut r = rel.to_owned();
    r.append(":");
    r.append(decimal_i64(turn).as_str());
    r.append(":");
    r.append(place);
    r
}

/// Appends the records of a turn.
fn push_turn(
    s: &Session,
    starts: &HashMap<i64, i64>,
    turn: &AtomCodeTurnStat,
    out: &mut Vec<UsageRecord>,
)
    ensures
        record_views(final(out)@) == record_views(old(out)@) + turn_records(s@, starts@, *turn),
{
    broadcast use vstd::std_specs::hash::group_hash_axioms;

    let number: i64 = match turn.turn_id {
        Some(id) => id,
        None => 0,
    };
    let stamp: i64 = match starts.get(&number) {
        Some(ts) => *ts,
        None => s.fallback_ts,
    };
    let started: i64 = started_at(stamp, s.now);
    let ghost before = record_views(out@);
    let calls: usize = turn.model_usage.len();
    if calls == 0 {
        let used: u64 = count(turn.used_tokens);
        if used == 0 {
            assert(before + turn_records(s@, starts@, *turn) =~= before);
            return;
        }
        out.push(
            UsageRecord::new(
                Provider::AtomCode,
                s.project.clone(),
                s.session_id.clone(),
                Usage {
                    model: "unknown".to_owned(),
                    started_at: started,
                    input_tokens: used,
                    output_tokens: 0,
                    cache_read_tokens: 0,
                    cache_write_tokens: 0,
                    cost_micros: 0,
                },
                s.turn_bytes,
                key_of(s.rel.as_str(), number, "legacy"),
            ),
        );
        assert(record_views(out@) =~= before + turn_records(s@, starts@, *turn));
        return;
    }
    let call_bytes: u64 = share_of(s.turn_bytes, calls);
    let mut i: usize = 0;
    assert(before + call_records(s@, starts@, number, calls as nat, turn.model_usage@.take(0))
        =~= before);
    while i < calls
        invariant
            i <= calls == turn.model_usage@.len(),
            calls > 0,
            number == turn_number(*turn),
            started == turn_start(s@, starts@, number),
            call_bytes == share(s.turn_bytes, calls as nat),
            record_views(out@) == before + call_records(
                s@,
                starts@,
                number,
                calls as nat,
                turn.model_usage@.take(i as int),
            ),
        decreases calls - i,
    {
        let call = &turn.model_usage[i];
        let ghost first = turn.model_usage@.take(i + 1);
        assert(first.drop_last() =~= turn.model_usage@.take(i as int));
        assert(first.last() == *call);
        if let Some(tokens) = &call.tokens {
            let input: u64 = count(tokens.input);
            let output: u64 = count(tokens.output);
            let cache_read: u64 = count(tokens.cached_input);
            if input > 0 || output > 0 || cache_read > 0 {
                let ghost so_far = record_views(out@);
                out.push(
                    UsageRecord::new(
                        Provider::AtomCode,
                        s.project.clone(),
                        s.session_id.clone(),
                        Usage {
                            model: name_or(&call.model_id, "unknown"),
                            started_at: started,
                            input_tokens: input,
                            output_tokens: output,
                            cache_read_tokens: cache_read,
                            cache_write_tokens: 0,
                            cost_micros: 0,
                        },
                        call_bytes,
                        key_of(s.rel.as_str(), number, decimal_u64(i as u64).as_str()),
                    ),
                );
                assert(record_views(out@) =~= so_far.push(out@.last()@));
                assert(record_views(out@) =~= before + call_records(
                    s@,
                    starts@,
                    number,
                    calls as nat,
                    first,
                ));
            }
        }
        i += 1;
    }
    assert(turn.model_usage@.take(calls as int) =~= turn.model_usage@);
}

/// The records of a session in the per-call format. `dir_name` is the last component of its
/// directory, `starts` holds the starts of its turns, `raw_len` is the length of its file in
/// bytes, which the turns share, and `now` stands in for a stamp that the calendar does not
/// reach.
pub fn meta_records(
    meta: &AtomCodeMeta,
    file: &SessionFile,
    dir_name: &Option<String>,
    starts: &HashMap<i64, i64>,
    raw_len: u64,
    now: i64,
) -> (r: Vec<UsageRecord>)
    ensures
        record_views(r@) == turns_records(
            meta_session(*meta, *file, opt_text(*dir_name), raw_len, now),
            starts@,
            meta.turn_stats@,
        ),
{
    let s = Session {
        project: project_from(&meta.working_dir, dir_name),
        session_id: identify(&meta.id, &file.stem),
        rel: file.rel.clone(),
        fallback_ts: stamp_or(meta.updated_at, meta.created_at, file.mtime_ms),
        turn_bytes: share_of(raw_len, meta.turn_stats.len()),
        now,
    };
    let ghost turns = meta.turn_stats@;
    let mut out: Vec<UsageRecord> = Vec::new();
    let mut i: usize = 0;
    while i < meta.turn_stats.len()
        invariant
            i <= meta.turn_stats@.len(),
            turns == meta.turn_stats@,
            record_views(out@) == turns_records(s@, starts@, turns.take(i as int)),
        decreases meta.turn_stats@.len() - i,
    {
        assert(turns.take(i + 1).drop_last() =~= turns.take(i as int));
        push_turn(&s, starts, &meta.turn_stats[i], &mut out);
        i += 1;
    }
    assert(turns.take(turns.len() as int) =~= turns);
    out
}

/// The stamp of a turn: its own, or that of the session.
pub open spec fn turn_stamp(
    meta: AtomCodeMeta,
    file: SessionFile,
    starts: Map<i64, i64>,
    turn: AtomCodeTurnStat,
) -> i64 {
    if starts.contains_key(turn_number(turn)) {
        starts[turn_number(turn)]
    } else {
        session_stamp(meta.updated_at, meta.created_at, file.mtime_ms)
    }
}

/// Whether a session has a turn whose stamp the calendar does not reach.
pub open spec fn meta_asks_time(
    meta: AtomCodeMeta,
    file: SessionFile,
    starts: Map<i64, i64>,
) -> bool {
    exists|i: int|
        0 <= i < meta.turn_stats@.len() && !in_calendar(
            turn_stamp(meta, file, starts, #[trigger] meta.turn_stats@[i]),
        )
}

/// Whether a session has a turn whose stamp the calendar does not reach, so that the time has to
/// be read.
fn needs_time(meta: &AtomCodeMeta, file: &SessionFile, starts: &HashMap<i64, i64>) -> (r: bool)
    ensures
        r == meta_asks_time(*meta, *file, starts@),
{
    broadcast use vstd::std_specs::hash::group_hash_axioms;

    let fallback_ts: i64 = stamp_or(meta.updated_at, meta.created_at, file.mtime_ms);
    let mut i: usize = 0;
    while i < meta.turn_stats.len()
        invariant
            i <= meta.turn_stats@.len(),
            fallback_ts == session_stamp(meta.updated_at, meta.created_at, file.mtime_ms),
            forall|j: int|
                0 <= j < i ==> in_calendar(
                    turn_stamp(*meta, *file, starts@, #[trigger] meta.turn_stats@[j]),
                ),
        decreases meta.turn_stats@.len() - i,
    {
        let number: i64 = match meta.turn_stats[i].turn_id {
            Some(id) => id,
            None => 0,
        };
        let stamp: i64 = match starts.get(&number) {
            Some(ts) => *ts,
            None => fallback_ts,
        };
        assert(stamp == turn_stamp(*meta, *file, starts@, meta.turn_stats@[i as int]));
        if !reaches(stamp) {
            return true;
        }
        i += 1;
    }
    false
}

/// Reads a session in the per-call format: [`meta_records`] with the directory name as the system
/// gives it, and with the time where a turn needs it.
pub fn parse_meta(
    meta: &AtomCodeMeta,
    file: &SessionFile,
    starts: &HashMap<i64, i64>,
    raw_len: u64,
) -> (r: Vec<UsageRecord>)
    ensures
        exists|dir_name: Option<Seq<char>>, now: i64|
            {
                &&& (meta.working_dir matches Some(dir) ==> may_be_file_name(dir@, dir_name))
                &&& record_views(r@) == #[trigger] turns_records(
                    meta_session(*meta, *file, dir_name, raw_len, now),
                    starts@,
                    meta.turn_stats@,
                )
            },
{
    let dir_name: Option<String> = match &meta.working_dir {
        Some(dir) => path_file_name(dir.as_str()),
        None => None,
    };
    let now: i64 = if needs_time(meta, file, starts) {
        utc_now()
    } else {
        0
    };
    meta_records(meta, file, &dir_name, starts, raw_len, now)
}

/// A positive counter counts as it is; any other, or none, counts as zero.
pub proof fn only_positive_counters_count(n: i64)
    ensures
        n > 0 ==> counted(Some(n)) == n,
        n <= 0 ==> counted(Some(n)) == 0,
        counted(None) == 0,
{
}

/// A session goes by its own identity, or else by the name of its file, or is unknown.
pub proof fn sessions_go_by_their_identity(id: Seq<char>, stem: Seq<char>)
    ensures
        id.len() > 0 ==> session_identity(Some(id), Some(stem)) == id,
        id.len() > 0 ==> session_identity(Some(id), None) == id,
        id.len() == 0 ==> session_identity(Some(id), Some(stem)) == stem,
        id.len() == 0 ==> session_identity(Some(id), None) == "unknown"@,
        session_identity(None, Some(stem)) == stem,
        session_identity(None, None) == "unknown"@,
{
}

/// The last change of a session stamps it, or else its creation, or else the last change of its
/// file.
pub proof fn last_change_stamps_a_session(updated: i64, created: i64, mtime: i64)
    ensures
        session_stamp(Some(updated), Some(created), mtime) == updated,
        session_stamp(Some(updated), None, mtime) == updated,
        session_stamp(None, Some(created), mtime) == created,
        session_stamp(None, None, mtime) == mtime,
{
}

/// A share is what each of so many parts gets when the bytes are split evenly: with one byte more
/// for each they would not suffice. The whole is left where there are no parts.
pub proof fn shares_are_even(bytes: u64, n: nat)
    ensures
        n > 0 ==> n * share(bytes, n) <= bytes < n * (share(bytes, n) + 1),
        n == 0 ==> share(bytes, n) == bytes,
{
    if n > 0 {
        let whole = bytes as nat;
        assert(whole / n <= whole && n * (whole / n) <= whole && whole < n * (whole / n + 1))
            by (nonlinear_arith)
            requires
                n > 0,
        ;
    }
}

/// The values that the records of a session share are those of its fields.
pub proof fn session_value_is_its_fields(s: Session)
    ensures
        s@.project == s.project@,
        s@.session_id == s.session_id@,
        s@.rel == s.rel@,
        s@.fallback_ts == s.fallback_ts,
        s@.turn_bytes == s.turn_bytes,
        s@.now == s.now,
{
}

/// The time is read exactly where a turn has a stamp that the calendar does not reach.
pub proof fn time_is_asked_for_where_a_stamp_is_out_of_reach(
    meta: AtomCodeMeta,
    file: SessionFile,
    starts: Map<i64, i64>,
    t: int,
)
    requires
        0 <= t < meta.turn_stats@.len(),
    ensures
        ({
            let number = match meta.turn_stats@[t].turn_id {
                Some(id) => id,
                None => 0,
            };
            let stamp = if starts.contains_key(number) {
                starts[number]
            } else if meta.updated_at is Some {
                meta.updated_at->0
            } else if meta.created_at is Some {
                meta.created_at->0
            } else {
                file.mtime_ms
            };
            stamp < -8_334_601_228_800_000 || stamp > 8_210_266_876_799_999 ==> meta_asks_time(
                meta,
                file,
                starts,
            )
        }),
{
    assert(meta.turn_stats@[t] == meta.turn_stats@[t]);
    let turn = meta.turn_stats@[t];
    if !in_calendar(turn_stamp(meta, file, starts, turn)) {
        assert(meta_asks_time(meta, file, starts));
    }
}

/// The time is not asked for where the calendar reaches the stamps of all turns.
pub proof fn time_is_left_alone_where_all_stamps_are_in_reach(
    meta: AtomCodeMeta,
    file: SessionFile,
    starts: Map<i64, i64>,
)
    requires
        forall|turn: i64|
            #[trigger] starts.contains_key(turn) ==> -8_334_601_228_800_000 <= starts[turn]
                <= 8_210_266_876_799_999,
        -8_334_601_228_800_000 <= session_stamp(meta.updated_at, meta.created_at, file.mtime_ms)
            <= 8_210_266_876_799_999,
    ensures
        !meta_asks_time(meta, file, starts),
{
}

} // verus!
