//! Which format a session is in, and its records.

use vstd::prelude::*;
use vstd::string::*;
use crate::atomcode::aggregate::{
    aggregate_asks_time, aggregate_below_two_roots, aggregate_records, aggregate_session,
    asks_time, lemma_aggregate_two_roots, millis_fit, parse_json_new, session_model,
    session_turns, stamps_fit, working_dir,
};
use crate::atomcode::laws::{
    keyed_below, lemma_share_no_key, lemma_turns_two_roots, same_but_keys,
    session_below_two_roots, share_no_key,
};
use crate::atomcode::per_call::{meta_session, parse_meta, turns_records, SessionFile};
use crate::atomcode::stamps::{load_turn_timestamps, turn_starts};
use crate::atomcode::{AtomCodeJsonlLine, AtomCodeMeta};
use crate::clock::utc_now;
use crate::files::{file_error, file_error_text};
use crate::json::{json_of_text, lemma_trees, parse_json, Json, JsonTree};
use crate::model::{opt_text, record_views, RecordView, UsageRecord};
use crate::paths::{
    ends_plainly, keys_apart, label_keeps_root_from_home, labels_keep_roots_apart, lies_below,
    may_be_file_name, may_be_joined, may_be_place, path_file_name,
    places_below_two_roots_are_apart, plain_label, plain_path, stem_of,
};
use crate::text::byte_len;

verus! {

/// Whether a turn lists model calls.
pub open spec fn lists_calls(turn: JsonTree) -> bool {
    turn.items_at("model_usage"@) matches Some(calls) && calls.len() > 0
}

/// Whether some turn of a session lists model calls.
pub open spec fn has_rich_breakdown(json: JsonTree) -> bool {
    exists|i: int| 0 <= i < session_turns(json).len() && lists_calls(#[trigger] session_turns(json)[i])
}

/// Whether a session is in the aggregate format: no turn lists calls, and it either holds its
/// messages or counts the tokens of its first turn in one number.
pub open spec fn looks_new(json: JsonTree) -> bool {
    !has_rich_breakdown(json) && (json.get("messages"@) is Some || (session_turns(json).len() > 0
        && session_turns(json)[0].get("total_tokens"@) is Some))
}

/// What becomes of a session file.
#[derive(Debug)]
pub enum SessionOutcome {
    /// The session is in the aggregate format, with these records.
    Records(Vec<UsageRecord>),
    /// The session is in the per-call format: [`per_call_session`] reads it.
    PerCall,
    /// The file holds no document; the message says why.
    Failed(String),
    /// A stamp is so far in the past that it has no value in milliseconds.
    StampOverflow,
}

/// The mathematical value of a [`SessionOutcome`].
#[verifier::ext_equal]
pub enum OutcomeView {
    Records(Seq<RecordView>),
    PerCall,
    Failed(Seq<char>),
    StampOverflow,
}

impl View for SessionOutcome {
    type V = OutcomeView;

    open spec fn view(&self) -> OutcomeView {
        match *self {
            SessionOutcome::Records(records) => OutcomeView::Records(record_views(records@)),
            SessionOutcome::PerCall => OutcomeView::PerCall,
            SessionOutcome::Failed(message) => OutcomeView::Failed(message@),
            SessionOutcome::StampOverflow => OutcomeView::StampOverflow,
        }
    }
}

/// What becomes of a session file whose text was parsed into `parsed`.
pub open spec fn outcome_of(
    parsed: Result<JsonTree, Seq<char>>,
    file: SessionFile,
    dir_name: Option<Seq<char>>,
    raw_len: u64,
    now: i64,
) -> OutcomeView {
    match parsed {
        Err(message) => OutcomeView::Failed(file_error("parse"@, file.path@, message)),
        Ok(json) => if !looks_new(json) {
            OutcomeView::PerCall
        } else if !stamps_fit(json) {
            OutcomeView::StampOverflow
        } else {
            OutcomeView::Records(
                aggregate_records(
                    aggregate_session(json, file, dir_name, raw_len, now),
                    session_model(json),
                    session_turns(json),
                ),
            )
        },
    }
}

/// What a parse gave, by its views.
pub open spec fn parse_view(parsed: Result<Json, String>) -> Result<JsonTree, Seq<char>> {
    match parsed {
        Ok(json) => Ok(json@),
        Err(message) => Err(message@),
    }
}

/// Whether some turn of a session lists model calls.
fn has_calls(json: &Json) -> (r: bool)
    ensures
        r == has_rich_breakdown(json@),
{
    let turns: &Vec<Json> = match json.items_at("turn_stats") {
        Some(turns) => turns,
        None => return false,
    };
    let ghost all = session_turns(json@);
    proof {
        lemma_trees(turns@);
    }
    let mut i: usize = 0;
    while i < turns.len()
        invariant
            i <= turns@.len() == all.len(),
            all == session_turns(json@),
            forall|j: int| 0 <= j < all.len() ==> #[trigger] all[j] == turns@[j]@,
            forall|j: int| 0 <= j < i ==> !lists_calls(#[trigger] all[j]),
        decreases turns@.len() - i,
    {
        assert(all[i as int] == turns@[i as int]@);
        if let Some(calls) = turns[i].items_at("model_usage") {
            proof {
                lemma_trees(calls@);
            }
            if calls.len() > 0 {
                assert(lists_calls(all[i as int]));
                return true;
            }
        }
        i += 1;
    }
    false
}

/// Whether the first turn of a session counts its tokens in one number.
fn first_turn_has_total(json: &Json) -> (r: bool)
    ensures
        r == (session_turns(json@).len() > 0 && session_turns(json@)[0].get("total_tokens"@)
            is Some),
{
    match json.items_at("turn_stats") {
        Some(turns) => {
            proof {
                lemma_trees(turns@);
            }
            if turns.len() == 0 {
                return false;
            }
            assert(session_turns(json@)[0] == turns@[0]@);
            turns[0].get("total_tokens").is_some()
        },
        None => false,
    }
}

/// Whether a session is in the aggregate format.
pub fn is_aggregate(json: &Json) -> (r: bool)
    ensures
        r == looks_new(json@),
{
    !has_calls(json) && (json.get("messages").is_some() || first_turn_has_total(json))
}

/// Whether a stamp has a value in milliseconds.
fn stamp_fits(v: Option<i64>) -> (r: bool)
    ensures
        r == millis_fit(v),
{
    match v {
        Some(v) => v >= i64::MIN / 1000,
        None => true,
    }
}

/// What becomes of a session file whose text was parsed into `parsed`. `dir_name` is the last
/// component of the directory of the session, `raw_len` the length of the file in bytes.
pub fn session_outcome(
    parsed: &Result<Json, String>,
    file: &SessionFile,
    dir_name: &Option<String>,
    raw_len: u64,
    now: i64,
) -> (r: SessionOutcome)
    ensures
        r@ == outcome_of(parse_view(*parsed), *file, opt_text(*dir_name), raw_len, now),
{
    match parsed {
        Err(message) => SessionOutcome::Failed(
            file_error_text("parse", file.path.as_str(), message.as_str()),
        ),
        Ok(json) => if !is_aggregate(json) {
            SessionOutcome::PerCall
        } else if !stamp_fits(json.integer_at("created_at")) || !stamp_fits(
            json.integer_at("updated_at"),
        ) {
            SessionOutcome::StampOverflow
        } else {
            SessionOutcome::Records(parse_json_new(json, file, dir_name, raw_len, now))
        },
    }
}

/// Whether `dir_name` may be the last component of the directory of a session.
pub open spec fn may_be_dir_name(dir: Option<Seq<char>>, dir_name: Option<Seq<char>>) -> bool {
    match dir {
        Some(dir) => may_be_file_name(dir, dir_name),
        None => dir_name is None,
    }
}

/// The directory of a parsed session.
pub open spec fn parsed_dir(parsed: Result<JsonTree, Seq<char>>) -> Option<Seq<char>> {
    match parsed {
        Ok(json) => json.text_at("working_dir"@),
        Err(_) => None,
    }
}

/// Whether a session file has a record whose stamp the calendar does not reach.
pub open spec fn outcome_asks_time(
    parsed: Result<JsonTree, Seq<char>>,
    file: SessionFile,
) -> bool {
    parsed matches Ok(json) && looks_new(json) && stamps_fit(json) && aggregate_asks_time(json, file)
}

/// Whether a session file has a record whose stamp the calendar does not reach, so that the time
/// has to be read.
fn needs_time(parsed: &Result<Json, String>, file: &SessionFile) -> (r: bool)
    ensures
        r == outcome_asks_time(parse_view(*parsed), *file),
{
    match parsed {
        Ok(json) => is_aggregate(json) && stamp_fits(json.integer_at("created_at")) && stamp_fits(
            json.integer_at("updated_at"),
        ) && asks_time(json, file),
        Err(_) => false,
    }
}

/// Reads the text of a session file: [`session_outcome`] with the document and the directory name
/// as the system gives them, and with the time where a record needs it.
pub fn parse_session(raw: &str, file: &SessionFile) -> (r: SessionOutcome)
    ensures
        exists|dir_name: Option<Seq<char>>, now: i64|
            {
                &&& may_be_dir_name(parsed_dir(json_of_text(raw@)), dir_name)
                &&& r@ == #[trigger] outcome_of(
                    json_of_text(raw@),
                    *file,
                    dir_name,
                    byte_len(raw@),
                    now,
                )
            },
{
    let parsed: Result<Json, String> = parse_json(raw);
    let dir_name: Option<String> = match &parsed {
        Ok(json) => match working_dir(json) {
            Some(dir) => path_file_name(dir.as_str()),
            None => None,
        },
        Err(_) => None,
    };
    let now: i64 = if needs_time(&parsed, file) {
        utc_now()
    } else {
        0
    };
    assert(parse_view(parsed) == json_of_text(raw@));
    assert(may_be_dir_name(parsed_dir(json_of_text(raw@)), opt_text(dir_name)));
    let raw_len: u64 = raw.len() as u64;
    assert(raw_len == byte_len(raw@));
    let r = session_outcome(&parsed, file, &dir_name, raw_len, now);
    assert(r@ == outcome_of(json_of_text(raw@), *file, opt_text(dir_name), byte_len(raw@), now));
    r
}

/// Reads a session in the per-call format: `meta` is what its text holds, or the message of the
/// parser, and `lines` are the lines of the file that stamps its turns.
pub fn per_call_session(
    meta: &Result<AtomCodeMeta, String>,
    lines: &Vec<AtomCodeJsonlLine>,
    file: &SessionFile,
    raw_len: u64,
) -> (r: Result<Vec<UsageRecord>, String>)
    ensures
        match *meta {
            Ok(meta) => r matches Ok(records) && exists|dir_name: Option<Seq<char>>, now: i64|
                {
                    &&& (meta.working_dir matches Some(dir) ==> may_be_file_name(dir@, dir_name))
                    &&& record_views(records@) == #[trigger] turns_records(
                        meta_session(meta, *file, dir_name, raw_len, now),
                        turn_starts(lines@),
                        meta.turn_stats@,
                    )
                },
            Err(message) => r matches Err(e) && e@ == file_error(
                "parse"@,
                file.path@,
                message@,
            ),
        },
{
    match meta {
        Ok(meta) => {
            let starts = load_turn_timestamps(lines);
            Ok(parse_meta(meta, file, &starts, raw_len))
        },
        Err(message) => Err(file_error_text("parse", file.path.as_str(), message.as_str())),
    }
}

/// The split of the tokens by calls is never passed over: a session in which any turn lists
/// calls is read in the per-call format, whatever else it holds.
pub proof fn calls_are_never_passed_over(
    json: JsonTree,
    turn: int,
    file: SessionFile,
    dir_name: Option<Seq<char>>,
    raw_len: u64,
    now: i64,
)
    requires
        0 <= turn < session_turns(json).len(),
        lists_calls(session_turns(json)[turn]),
    ensures
        outcome_of(Ok(json), file, dir_name, raw_len, now) == OutcomeView::PerCall,
{
}

/// Whether two outcomes are those of the same session, read from two files whose records are told
/// apart: none has a key of the other, and but for the keys and, where `starts` does not hold, for
/// when they start, they tell the same.
pub open spec fn told_apart(a: OutcomeView, b: OutcomeView, starts: bool) -> bool {
    match (a, b) {
        (OutcomeView::Records(x), OutcomeView::Records(y)) => share_no_key(x, y) && same_but_keys(
            x,
            y,
            starts,
        ),
        (OutcomeView::PerCall, OutcomeView::PerCall) => true,
        (OutcomeView::StampOverflow, OutcomeView::StampOverflow) => true,
        (OutcomeView::Failed(_), OutcomeView::Failed(_)) => true,
        _ => false,
    }
}

/// The records of a session in the per-call format.
pub open spec fn per_call_records(
    meta: AtomCodeMeta,
    starts: Map<i64, i64>,
    file: SessionFile,
    dir_name: Option<Seq<char>>,
    raw_len: u64,
    now: i64,
) -> Seq<RecordView> {
    turns_records(meta_session(meta, file, dir_name, raw_len, now), starts, meta.turn_stats@)
}

/// Whether a session, read from two files, is told apart in either format. Where the session
/// carries no stamp, its records start when the files were written.
pub open spec fn session_told_apart(
    parsed: Result<JsonTree, Seq<char>>,
    meta: AtomCodeMeta,
    starts: Map<i64, i64>,
    a: SessionFile,
    b: SessionFile,
    dir_name: Option<Seq<char>>,
    raw_len: u64,
    now: i64,
) -> bool {
    let x = per_call_records(meta, starts, a, dir_name, raw_len, now);
    let y = per_call_records(meta, starts, b, dir_name, raw_len, now);
    &&& told_apart(
        outcome_of(parsed, a, dir_name, raw_len, now),
        outcome_of(parsed, b, dir_name, raw_len, now),
        a.mtime_ms == b.mtime_ms || (parsed matches Ok(json) && (json.integer_at(
            "updated_at"@,
        ) is Some || json.integer_at("created_at"@) is Some)),
    )
    &&& share_no_key(x, y)
    &&& same_but_keys(
        x,
        y,
        a.mtime_ms == b.mtime_ms || meta.updated_at is Some || meta.created_at is Some,
    )
}

proof fn lemma_session_told_apart(
    parsed: Result<JsonTree, Seq<char>>,
    meta: AtomCodeMeta,
    starts: Map<i64, i64>,
    a: SessionFile,
    b: SessionFile,
    dir_name: Option<Seq<char>>,
    raw_len: u64,
    now: i64,
)
    requires
        opt_text(a.stem) == opt_text(b.stem),
        keys_apart(a.rel@, b.rel@),
    ensures
        session_told_apart(parsed, meta, starts, a, b, dir_name, raw_len, now),
{
    session_below_two_roots(meta, a, b, starts, dir_name, raw_len, now);
    if let Ok(json) = parsed {
        aggregate_below_two_roots(json, a, b, dir_name, raw_len, now);
    }
}

/// A session that lies at the same place below a root without a label and below one with a label
/// is told apart, whichever format it is in: no record of one is taken for a duplicate of one of
/// the other, and but for the keys they tell the same.
pub proof fn home_and_labelled_sessions_are_told_apart(
    label: Seq<char>,
    a: SessionFile,
    b: SessionFile,
    parsed: Result<JsonTree, Seq<char>>,
    meta: AtomCodeMeta,
    starts: Map<i64, i64>,
    dir_name: Option<Seq<char>>,
    raw_len: u64,
    now: i64,
)
    requires
        plain_label(label),
        plain_path(a.rel@),
        may_be_joined(label, a.rel@, b.rel@),
        opt_text(a.stem) == opt_text(b.stem),
    ensures
        session_told_apart(parsed, meta, starts, a, b, dir_name, raw_len, now),
{
    label_keeps_root_from_home(label, a.rel@, b.rel@);
    lemma_session_told_apart(parsed, meta, starts, a, b, dir_name, raw_len, now);
}

/// A session that lies below two roots with different labels, at the same place or at two, is told
/// apart, whichever format it is in: no record of one is taken for a duplicate of one of the other,
/// and but for the keys they tell the same.
pub proof fn differently_labelled_sessions_are_told_apart(
    label_a: Seq<char>,
    place_a: Seq<char>,
    a: SessionFile,
    label_b: Seq<char>,
    place_b: Seq<char>,
    b: SessionFile,
    parsed: Result<JsonTree, Seq<char>>,
    meta: AtomCodeMeta,
    starts: Map<i64, i64>,
    dir_name: Option<Seq<char>>,
    raw_len: u64,
    now: i64,
)
    requires
        label_a != label_b,
        plain_label(label_a),
        plain_label(label_b),
        plain_path(place_a),
        plain_path(place_b),
        may_be_joined(label_a, place_a, a.rel@),
        may_be_joined(label_b, place_b, b.rel@),
        opt_text(a.stem) == opt_text(b.stem),
    ensures
        session_told_apart(parsed, meta, starts, a, b, dir_name, raw_len, now),
{
    labels_keep_roots_apart(label_a, place_a, a.rel@, label_b, place_b, b.rel@);
    lemma_session_told_apart(parsed, meta, starts, a, b, dir_name, raw_len, now);
}

/// A session whose file lies at the same place below two roots, of which one has a label that the
/// other has not, is told apart, whichever format it is in and whatever the system makes of the
/// paths: no record of one is taken for a duplicate of one of the other, and but for the keys they
/// tell the same.
pub proof fn sessions_below_two_roots_are_told_apart(
    path_a: Seq<char>,
    dir_a: Seq<char>,
    sep_a: char,
    label_a: Option<Seq<char>>,
    a: SessionFile,
    path_b: Seq<char>,
    dir_b: Seq<char>,
    sep_b: char,
    label_b: Option<Seq<char>>,
    b: SessionFile,
    place: Seq<char>,
    parsed: Result<JsonTree, Seq<char>>,
    meta: AtomCodeMeta,
    starts: Map<i64, i64>,
    dir_name: Option<Seq<char>>,
    raw_len: u64,
    now: i64,
)
    requires
        lies_below(path_a, dir_a, sep_a, place),
        lies_below(path_b, dir_b, sep_b, place),
        path_a != path_b || (sep_a == '/' && ends_plainly(stem_of(dir_a, sep_a))),
        label_a != label_b,
        label_a matches Some(l) ==> plain_label(l),
        label_b matches Some(l) ==> plain_label(l),
        may_be_place(path_a, dir_a, label_a, a.rel@),
        may_be_place(path_b, dir_b, label_b, b.rel@),
        opt_text(a.stem) == opt_text(b.stem),
    ensures
        session_told_apart(parsed, meta, starts, a, b, dir_name, raw_len, now),
{
    places_below_two_roots_are_apart(
        path_a,
        dir_a,
        sep_a,
        label_a,
        a.rel@,
        path_b,
        dir_b,
        sep_b,
        label_b,
        b.rel@,
        place,
    );
    lemma_session_told_apart(parsed, meta, starts, a, b, dir_name, raw_len, now);
}

/// The records of a session file: those of its format.
pub open spec fn file_records(
    parsed: Result<JsonTree, Seq<char>>,
    meta: AtomCodeMeta,
    starts: Map<i64, i64>,
    file: SessionFile,
    dir_name: Option<Seq<char>>,
    raw_len: u64,
    now: i64,
) -> Seq<RecordView> {
    match outcome_of(parsed, file, dir_name, raw_len, now) {
        OutcomeView::Records(records) => records,
        OutcomeView::PerCall => per_call_records(meta, starts, file, dir_name, raw_len, now),
        _ => seq![],
    }
}

proof fn lemma_file_records_keyed(
    parsed: Result<JsonTree, Seq<char>>,
    meta: AtomCodeMeta,
    starts: Map<i64, i64>,
    file: SessionFile,
    dir_name: Option<Seq<char>>,
    raw_len: u64,
    now: i64,
)
    ensures
        keyed_below(
            file_records(parsed, meta, starts, file, dir_name, raw_len, now),
            file.rel@,
        ),
{
    let s = meta_session(meta, file, dir_name, raw_len, now);
    lemma_turns_two_roots(s, s, starts, meta.turn_stats@);
    if let Ok(json) = parsed {
        let t = aggregate_session(json, file, dir_name, raw_len, now);
        lemma_aggregate_two_roots(t, t, session_model(json), session_turns(json));
    }
}

/// Two session files below roots with different labels have no key in common, whatever sessions
/// they hold and in whichever formats.
pub proof fn files_with_different_labels_share_no_key(
    label_a: Seq<char>,
    place_a: Seq<char>,
    a: SessionFile,
    parsed_a: Result<JsonTree, Seq<char>>,
    meta_a: AtomCodeMeta,
    starts_a: Map<i64, i64>,
    dir_name_a: Option<Seq<char>>,
    raw_len_a: u64,
    now_a: i64,
    label_b: Seq<char>,
    place_b: Seq<char>,
    b: SessionFile,
    parsed_b: Result<JsonTree, Seq<char>>,
    meta_b: AtomCodeMeta,
    starts_b: Map<i64, i64>,
    dir_name_b: Option<Seq<char>>,
    raw_len_b: u64,
    now_b: i64,
)
    requires
        label_a != label_b,
        plain_label(label_a),
        plain_label(label_b),
        plain_path(place_a),
        plain_path(place_b),
        may_be_joined(label_a, place_a, a.rel@),
        may_be_joined(label_b, place_b, b.rel@),
    ensures
        share_no_key(
            file_records(parsed_a, meta_a, starts_a, a, dir_name_a, raw_len_a, now_a),
            file_records(parsed_b, meta_b, starts_b, b, dir_name_b, raw_len_b, now_b),
        ),
{
    labels_keep_roots_apart(label_a, place_a, a.rel@, label_b, place_b, b.rel@);
    lemma_file_records_keyed(parsed_a, meta_a, starts_a, a, dir_name_a, raw_len_a, now_a);
    lemma_file_records_keyed(parsed_b, meta_b, starts_b, b, dir_name_b, raw_len_b, now_b);
    lemma_share_no_key(
        file_records(parsed_a, meta_a, starts_a, a, dir_name_a, raw_len_a, now_a),
        file_records(parsed_b, meta_b, starts_b, b, dir_name_b, raw_len_b, now_b),
        a.rel@,
        b.rel@,
    );
}

/// Whether turn `t` of a session lists a call.
pub open spec fn lists_call(json: JsonTree, t: int) -> bool {
    match json.get("turn_stats"@) {
        Some(JsonTree::Array(turns)) => 0 <= t < turns.len() && match turns[t].get(
            "model_usage"@,
        ) {
            Some(JsonTree::Array(calls)) => calls.len() > 0,
            _ => false,
        },
        _ => false,
    }
}

/// Whether the first turn of a session has a total.
pub open spec fn starts_with_total(json: JsonTree) -> bool {
    match json.get("turn_stats"@) {
        Some(JsonTree::Array(turns)) => turns.len() > 0 && turns[0].get("total_tokens"@) is Some,
        _ => false,
    }
}

/// Whether a stamp of a session has no value in milliseconds.
pub open spec fn has_overflowing_stamp(json: JsonTree) -> bool {
    ||| json.get("created_at"@) matches Some(JsonTree::Number { exact: Some(v), .. }) && v * 1000
        < i64::MIN
    ||| json.get("updated_at"@) matches Some(JsonTree::Number { exact: Some(v), .. }) && v * 1000
        < i64::MIN
}

/// A session in which no turn lists a call, and that holds messages or starts with a total, is in
/// the aggregate format; any other is in the per-call format. A file without a document fails, with
/// its path and the reason of the parser; so does an aggregate session with a stamp that has no
/// value in milliseconds.
pub proof fn format_is_told_by_calls_messages_and_totals(
    json: JsonTree,
    message: Seq<char>,
    file: SessionFile,
    dir_name: Option<Seq<char>>,
    raw_len: u64,
    now: i64,
)
    ensures
        outcome_of(Err(message), file, dir_name, raw_len, now) == OutcomeView::Failed(
            "parse"@ + " "@ + file.path@ + ": "@ + message,
        ),
        ({
            let outcome = outcome_of(Ok(json), file, dir_name, raw_len, now);
            let aggregate = (forall|t: int| !#[trigger] lists_call(json, t)) && (json.get(
                "messages"@,
            ) is Some || starts_with_total(json));
            &&& !aggregate ==> outcome == OutcomeView::PerCall
            &&& aggregate && has_overflowing_stamp(json) ==> outcome == OutcomeView::StampOverflow
            &&& aggregate && !has_overflowing_stamp(json) ==> outcome == OutcomeView::Records(
                aggregate_records(
                    aggregate_session(json, file, dir_name, raw_len, now),
                    session_model(json),
                    session_turns(json),
                ),
            )
        }),
{
    let turns = session_turns(json);
    assert forall|t: int| 0 <= t < turns.len() implies lists_call(json, t) == lists_calls(
        #[trigger] turns[t],
    ) by {}
    if has_rich_breakdown(json) {
        let t = choose|t: int| 0 <= t < turns.len() && lists_calls(#[trigger] turns[t]);
        assert(lists_call(json, t));
    } else {
        assert forall|t: int| !#[trigger] lists_call(json, t) by {
            if lists_call(json, t) {
                assert(lists_calls(turns[t]));
            }
        }
    }
}

/// What becomes of a file is told by its value: the records, the message, or which of the others it
/// is.
pub proof fn outcome_value_is_its_own(records: Vec<UsageRecord>, message: String)
    ensures
        SessionOutcome::Records(records)@ == OutcomeView::Records(record_views(records@)),
        SessionOutcome::PerCall@ == OutcomeView::PerCall,
        SessionOutcome::Failed(message)@ == OutcomeView::Failed(message@),
        SessionOutcome::StampOverflow@ == OutcomeView::StampOverflow,
{
}

/// The directory of a session is its member `working_dir`, whose last component names the project;
/// a file without a document has none.
pub proof fn directory_is_read_from_the_session(
    json: JsonTree,
    message: Seq<char>,
    name: Option<Seq<char>>,
)
    ensures
        match json.get("working_dir"@) {
            Some(JsonTree::Text(dir)) => parsed_dir(Ok(json)) == Some(dir),
            _ => parsed_dir(Ok(json)) is None,
        },
        parsed_dir(Err(message)) is None,
        may_be_dir_name(None, name) <==> name is None,
        forall|dir: Seq<char>| #[trigger]
            may_be_dir_name(Some(dir), name) <==> may_be_file_name(dir, name),
{
}

/// A parse is taken as what it gave: the document, or the message.
pub proof fn parse_value_is_its_own(json: Json, message: String)
    ensures
        parse_view(Ok(json)) == Ok::<JsonTree, Seq<char>>(json@),
        parse_view(Err(message)) == Err::<JsonTree, Seq<char>>(message@),
{
}

} // verus!
