//! Sessions in the aggregate format.

use vstd::prelude::*;
use vstd::string::*;
use crate::atomcode::per_call::{
    identify, project_from, session_identity, session_stamp, share, share_of, stamp_or, Session,
    SessionFile, SessionView,
};
use crate::atomcode::laws::{
    claimed_bytes, distinct_keys, keyed_below, lemma_share_no_key, lemma_shares_fit, same_but_keys,
    same_session, share_no_key, sound_record,
};
use crate::atomcode::prompt::{extract_model_from_messages, messages_model};
use crate::clock::{in_calendar, instant_or, reaches, started_at};
use crate::json::{lemma_trees, trees, Json, JsonTree};
use crate::model::{
    opt_text, record_views, total_counters, Counters, Provider, RecordView, Usage, UsageRecord,
};
use crate::paths::{is_key_of, keys_apart, project_of};
use crate::text::{decimal, decimal_u64, lemma_decimal_digits, lemma_decimal_injective};

verus! {

/// Stamps below this are in seconds, the others in milliseconds.
pub const FIRST_MILLIS: i64 = 1_000_000_000_000;

/// A stamp in milliseconds.
pub open spec fn in_millis(v: Option<i64>) -> Option<i64> {
    match v {
        Some(v) => if v < FIRST_MILLIS {
            Some((v * 1000) as i64)
        } else {
            Some(v)
        },
        None => None,
    }
}

/// Whether a stamp has a value in milliseconds.
pub open spec fn millis_fit(v: Option<i64>) -> bool {
    v matches Some(v) ==> v * 1000 >= i64::MIN
}

/// A stamp in milliseconds: one too small to be in milliseconds is in seconds.
pub fn to_millis(v: Option<i64>) -> (r: Option<i64>)
    requires
        millis_fit(v),
    ensures
        r == in_millis(v),
{
    match v {
        Some(v) => if v < FIRST_MILLIS {
            Some(v * 1000)
        } else {
            Some(v)
        },
        None => None,
    }
}

/// The turns of a session.
pub open spec fn session_turns(json: JsonTree) -> Seq<JsonTree> {
    match json.items_at("turn_stats"@) {
        Some(turns) => turns,
        None => seq![],
    }
}

/// The model of a session.
pub open spec fn session_model(json: JsonTree) -> Seq<char> {
    let model = match json.items_at("messages"@) {
        Some(messages) => messages_model(messages),
        None => None,
    };
    match model {
        Some(model) => model,
        None => "unknown"@,
    }
}

/// Whether the stamps of a session have values in milliseconds.
pub open spec fn stamps_fit(json: JsonTree) -> bool {
    millis_fit(json.integer_at("created_at"@)) && millis_fit(json.integer_at("updated_at"@))
}

/// What the records of a session in the aggregate format have in common.
pub open spec fn aggregate_session(
    json: JsonTree,
    file: SessionFile,
    dir_name: Option<Seq<char>>,
    raw_len: u64,
    now: i64,
) -> SessionView {
    SessionView {
        project: project_of(json.text_at("working_dir"@), dir_name),
        session_id: session_identity(json.text_at("id"@), opt_text(file.stem)),
        rel: file.rel@,
        fallback_ts: aggregate_stamp(json, file),
        turn_bytes: share(raw_len, session_turns(json).len()),
        now,
    }
}

/// The tokens of a turn: what is missing or negative counts as zero.
pub open spec fn turn_total(turn: JsonTree) -> u64 {
    match turn.integer_at("total_tokens"@) {
        Some(n) => if n > 0 {
            n as u64
        } else {
            0
        },
        None => 0,
    }
}

/// The record of the turn at `index`. The format does not split its tokens, so they all count
/// as input.
pub open spec fn aggregate_record(
    s: SessionView,
    model: Seq<char>,
    index: int,
    turn: JsonTree,
) -> RecordView {
    RecordView {
        provider: Provider::AtomCode,
        project: s.project,
        session_id: s.session_id,
        model,
        started_at: instant_or(s.fallback_ts, s.now),
        input_tokens: turn_total(turn),
        output_tokens: 0,
        cache_read_tokens: 0,
        cache_write_tokens: 0,
        cost_micros: 0,
        raw_bytes: s.turn_bytes,
        fingerprint: s.rel + ":"@ + decimal(index as nat),
    }
}

/// The records of a run of turns: one for each turn that used tokens.
pub open spec fn aggregate_records(
    s: SessionView,
    model: Seq<char>,
    turns: Seq<JsonTree>,
) -> Seq<RecordView>
    decreases turns.len(),
{
    if turns.len() == 0 {
        seq![]
    } else {
        let before = aggregate_records(s, model, turns.drop_last());
        if turn_total(turns.last()) > 0 {
            before.push(aggregate_record(s, model, turns.len() - 1, turns.last()))
        } else {
            before
        }
    }
}

/// A text as a string of its own.
fn owned(s: Option<&str>) -> (r: Option<String>)
    ensures
        match s {
            Some(s) => opt_text(r) == Some(s@),
            None => r is None,
        },
{
    match s {
        Some(s) => Some(s.to_owned()),
        None => None,
    }
}

/// The directory of a session.
pub fn working_dir(json: &Json) -> (r: Option<String>)
    ensures
        opt_text(r) == json@.text_at("working_dir"@),
{
    owned(json.text_at("working_dir"))
}

/// The model of a session.
fn model_of(json: &Json) -> (r: String)
    ensures
        r@ == session_model(json@),
{
    match extract_model_from_messages(json.items_at("messages")) {
        Some(model) => model,
        None => "unknown".to_owned(),
    }
}

/// The tokens of a turn.
fn total_of(turn: &Json) -> (r: u64)
    ensures
        r == turn_total(turn@),
{
    match turn.integer_at("total_tokens") {
        Some(n) => if n > 0 {
            n as u64
        } else {
            0
        },
        None => 0,
    }
}

/// The stamp of a session, in milliseconds.
pub open spec fn aggregate_stamp(json: JsonTree, file: SessionFile) -> i64 {
    session_stamp(
        in_millis(json.integer_at("updated_at"@)),
        in_millis(json.integer_at("created_at"@)),
        file.mtime_ms,
    )
}

/// Whether a session has a record whose stamp the calendar does not reach.
pub open spec fn aggregate_asks_time(json: JsonTree, file: SessionFile) -> bool {
    !in_calendar(aggregate_stamp(json, file)) && exists|i: int|
        0 <= i < session_turns(json).len() && turn_total(#[trigger] session_turns(json)[i]) > 0
}

/// The stamp of a session, in milliseconds.
fn stamp_of(json: &Json, file: &SessionFile) -> (r: i64)
    requires
        stamps_fit(json@),
    ensures
        r == aggregate_stamp(json@, *file),
{
    let updated: Option<i64> = to_millis(json.integer_at("updated_at"));
    let created: Option<i64> = to_millis(json.integer_at("created_at"));
    stamp_or(updated, created, file.mtime_ms)
}

/// Whether a session has a record whose stamp the calendar does not reach, so that the time has
/// to be read.
pub fn asks_time(json: &Json, file: &SessionFile) -> (r: bool)
    requires
        stamps_fit(json@),
    ensures
        r == aggregate_asks_time(json@, *file),
{
    if reaches(stamp_of(json, file)) {
        return false;
    }
    let turns: &Vec<Json> = match json.items_at("turn_stats") {
        Some(turns) => turns,
        None => return false,
    };
    let ghost all = session_turns(json@);
    proof {
        lemma_trees(turns@);
    }
    let mut i: usize = 0;
    while i < turns.len()
        invariant
            i <= turns@.len() == all.len(),
            all == session_turns(json@),
            !in_calendar(aggregate_stamp(json@, *file)),
            forall|j: int| 0 <= j < all.len() ==> #[trigger] all[j] == turns@[j]@,
            forall|j: int| 0 <= j < i ==> turn_total(#[trigger] all[j]) == 0,
        decreases turns@.len() - i,
    {
        assert(all[i as int] == turns@[i as int]@);
        if total_of(&turns[i]) > 0 {
            return true;
        }
        i += 1;
    }
    false
}

/// The records of a session in the aggregate format. `dir_name` is the last component of its
/// directory, `raw_len` is the length of its file in bytes, which the turns share, and `now`
/// stands in for a stamp that the calendar does not reach.
pub fn parse_json_new(
    json: &Json,
    file: &SessionFile,
    dir_name: &Option<String>,
    raw_len: u64,
    now: i64,
) -> (r: Vec<UsageRecord>)
    requires
        stamps_fit(json@),
    ensures
        record_views(r@) == aggregate_records(
            aggregate_session(json@, *file, opt_text(*dir_name), raw_len, now),
            session_model(json@),
            session_turns(json@),
        ),
{
    let model = model_of(json);
    let none: Vec<Json> = Vec::new();
    let turns: &Vec<Json> = match json.items_at("turn_stats") {
        Some(turns) => turns,
        None => &none,
    };
    let ghost all = session_turns(json@);
    proof {
        lemma_trees(turns@);
        assert(trees(turns@) =~= all);
    }
    let s = Session {
        project: project_from(&working_dir(json), dir_name),
        session_id: identify(&owned(json.text_at("id")), &file.stem),
        rel: file.rel.clone(),
        fallback_ts: stamp_of(json, file),
        turn_bytes: share_of(raw_len, turns.len()),
        now,
    };
    let started: i64 = started_at(s.fallback_ts, now);
    let mut out: Vec<UsageRecord> = Vec::new();
    let mut i: usize = 0;
    while i < turns.len()
        invariant
            i <= turns@.len() == all.len(),
            forall|j: int| 0 <= j < all.len() ==> #[trigger] all[j] == turns@[j]@,
            model@ == session_model(json@),
            started == instant_or(s.fallback_ts, s.now),
            record_views(out@) == aggregate_records(s@, model@, all.take(i as int)),
        decreases turns@.len() - i,
    {
        let ghost first = all.take(i + 1);
        assert(first.drop_last() =~= all.take(i as int));
        assert(first.last() == turns@[i as int]@);
        let total: u64 = total_of(&turns[i]);
        if total > 0 {
            let ghost before = record_views(out@);
            let mut key = s.rel.clone();
            key.append(":");
            key.append(decimal_u64(i as u64).as_str());
            out.push(
                UsageRecord::new(
                    Provider::AtomCode,
                    s.project.clone(),
                    s.session_id.clone(),
                    Usage {
                        model: model.clone(),
                        started_at: started,
                        input_tokens: total,
                        output_tokens: 0,
                        cache_read_tokens: 0,
                        cache_write_tokens: 0,
                        cost_micros: 0,
                    },
                    s.turn_bytes,
                    key,
                ),
            );
            assert(record_views(out@) =~= before.push(out@.last()@));
        }
        i += 1;
    }
    assert(all.take(all.len() as int) =~= all);
    out
}

/// A stamp in seconds and the same instant in milliseconds mean the same, from the second on
/// whose milliseconds are no longer taken for seconds.
pub proof fn seconds_and_millis_agree(seconds: i64)
    requires
        FIRST_MILLIS <= seconds * 1000 <= i64::MAX,
        seconds < FIRST_MILLIS,
    ensures
        in_millis(Some(seconds)) == in_millis(Some((seconds * 1000) as i64)),
{
}

/// The tokens of a run of turns.
pub open spec fn turns_total(turns: Seq<JsonTree>) -> int
    decreases turns.len(),
{
    if turns.len() == 0 {
        0
    } else {
        turns_total(turns.drop_last()) + turn_total(turns.last())
    }
}

/// No tokens are lost and none are made up: all are input.
pub proof fn aggregate_tokens_are_kept(s: SessionView, model: Seq<char>, turns: Seq<JsonTree>)
    ensures
        total_counters(aggregate_records(s, model, turns)) == (Counters {
            input: turns_total(turns),
            ..Counters::none()
        }),
    decreases turns.len(),
{
    if turns.len() > 0 {
        aggregate_tokens_are_kept(s, model, turns.drop_last());
        let before = aggregate_records(s, model, turns.drop_last());
        let all = aggregate_records(s, model, turns);
        if turn_total(turns.last()) > 0 {
            assert(all.drop_last() =~= before);
        }
    }
}

/// Each record of a run of turns holds tokens and has a key with the place of its turn; no two
/// have the same key.
pub proof fn aggregate_records_are_sound(s: SessionView, model: Seq<char>, turns: Seq<JsonTree>)
    ensures
        distinct_keys(aggregate_records(s, model, turns)),
        forall|i: int|
            0 <= i < aggregate_records(s, model, turns).len()
                ==> sound_record(
                s,
                #[trigger] aggregate_records(s, model, turns)[i],
            ),
        forall|i: int|
            0 <= i < aggregate_records(s, model, turns).len() ==> exists|n: nat|
                n < turns.len() && (#[trigger] aggregate_records(s, model, turns)[i]).fingerprint
                    == s.rel + ":"@ + #[trigger] decimal(n),
    decreases turns.len(),
{
    if turns.len() > 0 {
        aggregate_records_are_sound(s, model, turns.drop_last());
        let before = aggregate_records(s, model, turns.drop_last());
        let all = aggregate_records(s, model, turns);
        let last = (turns.len() - 1) as nat;
        assert forall|i: int| 0 <= i < all.len() implies exists|n: nat|
            n < turns.len() && (#[trigger] all[i]).fingerprint == s.rel + ":"@ + #[trigger] decimal(
                n,
            ) by {
            if i < before.len() {
                assert(all[i] == before[i]);
                let n = choose|n: nat|
                    n < last && before[i].fingerprint == s.rel + ":"@ + #[trigger] decimal(n);
                assert(all[i].fingerprint == s.rel + ":"@ + decimal(n));
            } else {
                assert(all[i].fingerprint == s.rel + ":"@ + decimal(last));
            }
        }
        assert forall|i: int| 0 <= i < all.len() implies sound_record(
            s,
            #[trigger] all[i],
        ) by {
            if i < before.len() {
                assert(all[i] == before[i]);
            }
        }
        assert forall|i: int, j: int| 0 <= i < j < all.len() implies (#[trigger] all[i]).fingerprint
            != (#[trigger] all[j]).fingerprint by {
            assert(all[i] == before[i]);
            if j < before.len() {
                assert(all[j] == before[j]);
            } else {
                let n = choose|n: nat|
                    n < last && before[i].fingerprint == s.rel + ":"@ + #[trigger] decimal(n);
                if all[i].fingerprint == all[j].fingerprint {
                    let front = s.rel + ":"@;
                    assert((front + decimal(n)).skip(front.len() as int) =~= decimal(n));
                    assert((front + decimal(last)).skip(front.len() as int) =~= decimal(last));
                    lemma_decimal_injective(n, last);
                }
            }
        }
    }
}

proof fn lemma_aggregate_claim(s: SessionView, model: Seq<char>, turns: Seq<JsonTree>)
    ensures
        claimed_bytes(aggregate_records(s, model, turns)) <= turns.len() * s.turn_bytes,
    decreases turns.len(),
{
    let n = turns.len();
    let each = s.turn_bytes;
    if n > 0 {
        lemma_aggregate_claim(s, model, turns.drop_last());
        let before = aggregate_records(s, model, turns.drop_last());
        let all = aggregate_records(s, model, turns);
        assert((n - 1) * each + each == n * each) by (nonlinear_arith);
        if turn_total(turns.last()) > 0 {
            assert(all.drop_last() =~= before);
        }
    }
}

/// The records of a session together claim no more bytes than its file has.
pub proof fn aggregate_records_share_the_file(
    s: SessionView,
    model: Seq<char>,
    turns: Seq<JsonTree>,
    raw_len: u64,
)
    requires
        s.turn_bytes == share(raw_len, turns.len()),
    ensures
        claimed_bytes(aggregate_records(s, model, turns)) <= raw_len,
{
    lemma_aggregate_claim(s, model, turns);
    if turns.len() > 0 {
        lemma_shares_fit(raw_len, turns.len());
    }
}

/// The records of a session, read with its file at one place, tell the same as with its file at
/// another, and each has a key of the place.
pub proof fn lemma_aggregate_two_roots(
    s: SessionView,
    t: SessionView,
    model: Seq<char>,
    turns: Seq<JsonTree>,
)
    requires
        same_session(s, t),
    ensures
        same_but_keys(
            aggregate_records(s, model, turns),
            aggregate_records(t, model, turns),
            s.fallback_ts == t.fallback_ts,
        ),
        keyed_below(aggregate_records(s, model, turns), s.rel),
    decreases turns.len(),
{
    if turns.len() > 0 {
        lemma_aggregate_two_roots(s, t, model, turns.drop_last());
        reveal_strlit(":");
        let number = decimal((turns.len() - 1) as nat);
        let key = s.rel + ":"@ + number;
        lemma_decimal_digits((turns.len() - 1) as nat);
        assert(key.take(s.rel.len() as int) =~= s.rel);
        assert(key[s.rel.len() as int + 1] == number[0]);
        assert(is_key_of(key, s.rel));
    }
}

/// A session that lies below two roots is told apart: no record of one is taken for a duplicate
/// of one of the other, and but for the keys they tell the same. Where the session carries no
/// stamp the records may also start at different times, which are those of the files.
pub proof fn aggregate_below_two_roots(
    json: JsonTree,
    a: SessionFile,
    b: SessionFile,
    dir_name: Option<Seq<char>>,
    raw_len: u64,
    now: i64,
)
    requires
        opt_text(a.stem) == opt_text(b.stem),
        keys_apart(a.rel@, b.rel@),
    ensures
        ({
            let s = aggregate_session(json, a, dir_name, raw_len, now);
            let t = aggregate_session(json, b, dir_name, raw_len, now);
            let x = aggregate_records(s, session_model(json), session_turns(json));
            let y = aggregate_records(t, session_model(json), session_turns(json));
            &&& share_no_key(x, y)
            &&& same_but_keys(
                x,
                y,
                json.integer_at("updated_at"@) is Some || json.integer_at("created_at"@) is Some
                    || a.mtime_ms == b.mtime_ms,
            )
        }),
{
    let s = aggregate_session(json, a, dir_name, raw_len, now);
    let t = aggregate_session(json, b, dir_name, raw_len, now);
    let model = session_model(json);
    let turns = session_turns(json);
    lemma_aggregate_two_roots(s, t, model, turns);
    lemma_aggregate_two_roots(t, s, model, turns);
    lemma_share_no_key(
        aggregate_records(s, model, turns),
        aggregate_records(t, model, turns),
        a.rel@,
        b.rel@,
    );
}

/// The model of a session is the one that its messages name, and unknown where it has no messages
/// or they name none.
pub proof fn messages_give_the_model(json: JsonTree)
    ensures
        match json.get("messages"@) {
            Some(JsonTree::Array(messages)) => match messages_model(messages) {
                Some(model) => session_model(json) == model,
                None => session_model(json) == "unknown"@,
            },
            _ => session_model(json) == "unknown"@,
        },
{
}

/// The turns of a session are the items of its member `turn_stats`.
pub proof fn turns_are_listed_in_their_member(json: JsonTree)
    ensures
        match json.get("turn_stats"@) {
            Some(JsonTree::Array(turns)) => session_turns(json) == turns,
            _ => session_turns(json).len() == 0,
        },
{
}

/// The tokens of a turn are its total, whatever else it holds: two turns of the same total have the
/// same tokens, and a turn without a positive total has none.
pub proof fn turns_count_their_total_alone(a: JsonTree, b: JsonTree, n: i64)
    requires
        a.get("total_tokens"@) == b.get("total_tokens"@),
    ensures
        turn_total(a) == turn_total(b),
        n > 0 && a.integer_at("total_tokens"@) == Some(n) ==> turn_total(a) == n,
        n <= 0 && a.integer_at("total_tokens"@) == Some(n) ==> turn_total(a) == 0,
        a.integer_at("total_tokens"@) is None ==> turn_total(a) == 0,
{
}

/// A stamp below a million million is in seconds, and comes to a thousand times as many
/// milliseconds; any other is in milliseconds. A stamp fits where its milliseconds do.
pub proof fn small_stamps_are_seconds(v: i64)
    ensures
        v < 1_000_000_000_000 && v * 1000 >= i64::MIN ==> (in_millis(Some(v)) matches Some(ms)
            && ms == v * 1000),
        v >= 1_000_000_000_000 ==> in_millis(Some(v)) == Some(v),
        in_millis(None) == None::<i64>,
        millis_fit(Some(v)) <==> v * 1000 >= i64::MIN,
        millis_fit(None),
{
}

/// The stamps of a session are those of its last change and of its creation.
pub proof fn both_stamps_have_to_fit(json: JsonTree)
    ensures
        stamps_fit(json) <==> (json.integer_at("created_at"@) matches Some(v) ==> v * 1000
            >= i64::MIN) && (json.integer_at("updated_at"@) matches Some(v) ==> v * 1000
            >= i64::MIN),
{
}

} // verus!
