//! What every session file is booked as: which record or message tells of which call or turn.

use std::collections::HashMap;

use vstd::prelude::*;
use vstd::string::*;
use crate::atomcode::aggregate::{
    aggregate_asks_time, aggregate_record, aggregate_records, aggregate_session, parse_json_new,
    session_model, session_turns, turn_total,
};
use crate::atomcode::per_call::{
    call_counts, call_record, call_records, meta_records, meta_session, share, turn_number,
    turn_records, turns_records, uncalled_record, SessionFile, SessionView,
};
use crate::atomcode::unified::{
    call_message, call_messages, meta_origin, turn_messages, turns_messages, uncalled_message,
    MessageView, OriginView,
};
use crate::atomcode::{AtomCodeMeta, AtomCodeModelUsage, AtomCodeTurnStat};
use crate::json::{Json, JsonTree};
use crate::model::{
    lemma_rank_below, opt_text, rank, record_views, Counters, Provider, RecordView, UsageRecord,
};
use crate::text::{decimal, decimal_int, is_blank};

verus! {

/// Whether a counter of the records says what a counter of a session does: a positive number as
/// it is, and zero for any other or none.
pub open spec fn says(counter: u64, given: Option<i64>) -> bool {
    match given {
        Some(n) => counter == if n > 0 {
            n as int
        } else {
            0
        },
        None => counter == 0,
    }
}

/// Whether a counter is above zero.
pub open spec fn positive(given: Option<i64>) -> bool {
    given matches Some(n) && n > 0
}

/// Whether a call used tokens of any kind.
pub open spec fn used(call: AtomCodeModelUsage) -> bool {
    call.tokens matches Some(t) && (positive(t.input) || positive(t.output) || positive(
        t.cached_input,
    ))
}

/// The places of the calls of a turn that used tokens.
pub open spec fn used_calls(turn: AtomCodeTurnStat) -> Set<int> {
    Set::new(|k: int| 0 <= k < turn.model_usage@.len() && used(turn.model_usage@[k]))
}

/// How many records tell of a turn: one for each call that used tokens; without any calls, one
/// where the turn itself counts tokens.
pub open spec fn bookings(turn: AtomCodeTurnStat) -> nat {
    if turn.model_usage@.len() > 0 {
        rank(used_calls(turn), turn.model_usage@.len() as int)
    } else if positive(turn.used_tokens) {
        1
    } else {
        0
    }
}

/// How many records tell of the first `n` turns.
pub open spec fn bookings_before(turns: Seq<AtomCodeTurnStat>, n: int) -> nat
    decreases n,
{
    if n <= 0 {
        0
    } else {
        bookings_before(turns, n - 1) + bookings(turns[n - 1])
    }
}

/// The name that a text gives, and `unknown` where it gives none.
pub open spec fn names(name: Seq<char>, given: Option<String>, otherwise: Seq<char>) -> bool {
    match given {
        Some(text) => name == if text@.len() > 0 {
            text@
        } else {
            otherwise
        },
        None => name == otherwise,
    }
}

/// Whether a time is that of a stamp, or `now` where the calendar does not reach the stamp.
pub open spec fn stamped(time: i64, stamp: i64, now: i64) -> bool {
    if -8_334_601_228_800_000 <= stamp <= 8_210_266_876_799_999 {
        time == stamp
    } else {
        time == now
    }
}

/// The number that a turn goes by: its own, or zero.
pub open spec fn goes_by(turn: AtomCodeTurnStat) -> i64 {
    match turn.turn_id {
        Some(id) => id,
        None => 0,
    }
}

/// The stamp of a session: its last change, or else its creation, or else the last change of its
/// file.
pub open spec fn last_touched(meta: AtomCodeMeta, file: SessionFile) -> i64 {
    if meta.updated_at is Some {
        meta.updated_at->0
    } else if meta.created_at is Some {
        meta.created_at->0
    } else {
        file.mtime_ms
    }
}

/// Whether a record belongs to turn `t` of a session: to its provider, its project and its
/// identity, at the start of the turn, and nothing was written to the cache or priced.
pub open spec fn belongs(
    r: RecordView,
    meta: AtomCodeMeta,
    file: SessionFile,
    starts: Map<i64, i64>,
    dir_name: Option<Seq<char>>,
    now: i64,
    t: int,
) -> bool {
    let number = goes_by(meta.turn_stats@[t]);
    &&& r.provider == Provider::AtomCode
    &&& r.project == (match (meta.working_dir, dir_name) {
        (Some(dir), Some(name)) => if is_blank(dir@) {
            "unknown"@
        } else {
            name
        },
        _ => "unknown"@,
    })
    &&& names(
        r.session_id,
        meta.id,
        match file.stem {
            Some(stem) => stem@,
            None => "unknown"@,
        },
    )
    &&& stamped(
        r.started_at,
        if starts.contains_key(number) {
            starts[number]
        } else {
            last_touched(meta, file)
        },
        now,
    )
    &&& r.cache_write_tokens == 0
    &&& r.cost_micros == 0
}

/// Whether a record tells of call `k` of turn `t` of a session: of its model and its tokens, under
/// the key of the file, the turn and the place of the call, with the call's share of the bytes of
/// the file.
pub open spec fn books_call(
    r: RecordView,
    meta: AtomCodeMeta,
    file: SessionFile,
    starts: Map<i64, i64>,
    dir_name: Option<Seq<char>>,
    raw_len: u64,
    now: i64,
    t: int,
    k: int,
) -> bool {
    let turn = meta.turn_stats@[t];
    let call = turn.model_usage@[k];
    &&& belongs(r, meta, file, starts, dir_name, now, t)
    &&& names(r.model, call.model_id, "unknown"@)
    &&& call.tokens matches Some(tokens) && says(r.input_tokens, tokens.input) && says(
        r.output_tokens,
        tokens.output,
    ) && says(r.cache_read_tokens, tokens.cached_input)
    &&& r.raw_bytes == raw_len as nat / meta.turn_stats@.len() / turn.model_usage@.len()
    &&& r.fingerprint == file.rel@ + ":"@ + decimal_int(goes_by(turn) as int) + ":"@ + decimal(
        k as nat,
    )
}

/// Whether a record tells of turn `t` of a session, which lists no calls: its own counter is taken
/// for input, under an unknown model.
pub open spec fn books_turn(
    r: RecordView,
    meta: AtomCodeMeta,
    file: SessionFile,
    starts: Map<i64, i64>,
    dir_name: Option<Seq<char>>,
    raw_len: u64,
    now: i64,
    t: int,
) -> bool {
    let turn = meta.turn_stats@[t];
    &&& belongs(r, meta, file, starts, dir_name, now, t)
    &&& r.model == "unknown"@
    &&& says(r.input_tokens, turn.used_tokens)
    &&& r.output_tokens == 0
    &&& r.cache_read_tokens == 0
    &&& r.raw_bytes == raw_len as nat / meta.turn_stats@.len()
    &&& r.fingerprint == file.rel@ + ":"@ + decimal_int(goes_by(turn) as int) + ":legacy"@
}

/// The record of each call of a turn stands behind those of the calls before it that count.
proof fn lemma_call_places(
    s: SessionView,
    starts: Map<i64, i64>,
    turn: i64,
    calls: nat,
    first: Seq<AtomCodeModelUsage>,
    chosen: Set<int>,
)
    requires
        forall|k: int| 0 <= k < first.len() ==> (#[trigger] chosen.contains(k) == used(first[k])),
    ensures
        call_records(s, starts, turn, calls, first).len() == rank(chosen, first.len() as int),
        forall|k: int|
            0 <= k < first.len() && #[trigger] chosen.contains(k) ==> call_records(
                s,
                starts,
                turn,
                calls,
                first,
            )[rank(chosen, k) as int] == call_record(s, starts, turn, calls, k, first[k]),
    decreases first.len(),
{
    if first.len() > 0 {
        let front = first.drop_last();
        let last = first.len() - 1;
        assert forall|k: int| 0 <= k < front.len() implies (#[trigger] chosen.contains(k) == used(
            front[k],
        )) by {
            assert(front[k] == first[k]);
        }
        lemma_call_places(s, starts, turn, calls, front, chosen);
        assert(chosen.contains(last) == used(first[last]));
        assert(call_counts(first.last()) == used(first[last]));
        assert forall|k: int| 0 <= k < first.len() && #[trigger] chosen.contains(k) implies call_records(
            s,
            starts,
            turn,
            calls,
            first,
        )[rank(chosen, k) as int] == call_record(s, starts, turn, calls, k, first[k]) by {
            if k < last {
                lemma_rank_below(chosen, k, last);
                assert(front[k] == first[k]);
            }
        }
    }
}

/// A turn has as many records as bookings.
proof fn lemma_turn_bookings(s: SessionView, starts: Map<i64, i64>, turn: AtomCodeTurnStat)
    ensures
        turn_records(s, starts, turn).len() == bookings(turn),
{
    if turn.model_usage@.len() > 0 {
        lemma_call_places(
            s,
            starts,
            turn_number(turn),
            turn.model_usage@.len(),
            turn.model_usage@,
            used_calls(turn),
        );
    }
}

/// A session has as many records as bookings.
proof fn lemma_session_bookings(s: SessionView, starts: Map<i64, i64>, turns: Seq<AtomCodeTurnStat>)
    ensures
        turns_records(s, starts, turns).len() == bookings_before(turns, turns.len() as int),
    decreases turns.len(),
{
    if turns.len() > 0 {
        let front = turns.drop_last();
        lemma_session_bookings(s, starts, front);
        lemma_turn_bookings(s, starts, turns.last());
        lemma_bookings_agree(turns, front, turns.len() - 1);
    }
}

/// The records of each turn stand behind those of the turns before it.
proof fn lemma_turn_places(
    s: SessionView,
    starts: Map<i64, i64>,
    turns: Seq<AtomCodeTurnStat>,
    t: int,
    i: int,
)
    requires
        0 <= t < turns.len(),
        0 <= i < bookings(turns[t]),
    ensures
        bookings_before(turns, t) + i < turns_records(s, starts, turns).len(),
        turns_records(s, starts, turns)[bookings_before(turns, t) + i] == turn_records(
            s,
            starts,
            turns[t],
        )[i],
    decreases turns.len(),
{
    let front = turns.drop_last();
    let last = turns.len() - 1;
    lemma_session_bookings(s, starts, front);
    lemma_turn_bookings(s, starts, turns.last());
    lemma_bookings_agree(turns, front, last);
    if t < last {
        assert(front[t] == turns[t]);
        lemma_bookings_agree(turns, front, t);
        lemma_turn_places(s, starts, front, t, i);
    }
}

proof fn lemma_bookings_agree(turns: Seq<AtomCodeTurnStat>, front: Seq<AtomCodeTurnStat>, n: int)
    requires
        0 <= n <= front.len() <= turns.len(),
        forall|t: int| 0 <= t < front.len() ==> #[trigger] front[t] == turns[t],
    ensures
        bookings_before(turns, n) == bookings_before(front, n),
    decreases n,
{
    if n > 0 {
        lemma_bookings_agree(turns, front, n - 1);
        assert(front[n - 1] == turns[n - 1]);
    }
}

/// Every call of a session that used tokens has its record, with its own model and its own tokens:
/// it stands behind the records of the turns before, and of the calls before in its turn. A turn
/// that lists no calls but counts tokens has one record. There are no other records.
pub proof fn every_call_has_its_record(
    meta: AtomCodeMeta,
    file: SessionFile,
    starts: Map<i64, i64>,
    dir_name: Option<Seq<char>>,
    raw_len: u64,
    now: i64,
)
    ensures
        ({
            let turns = meta.turn_stats@;
            let records = turns_records(
                meta_session(meta, file, dir_name, raw_len, now),
                starts,
                turns,
            );
            &&& records.len() == bookings_before(turns, turns.len() as int)
            &&& forall|t: int, k: int|
                #![trigger turns[t].model_usage@[k]]
                0 <= t < turns.len() && 0 <= k < turns[t].model_usage@.len() && used(
                    turns[t].model_usage@[k],
                ) ==> books_call(
                    records[(bookings_before(turns, t) + rank(used_calls(turns[t]), k)) as int],
                    meta,
                    file,
                    starts,
                    dir_name,
                    raw_len,
                    now,
                    t,
                    k,
                )
            &&& forall|t: int|
                0 <= t < turns.len() && (#[trigger] turns[t]).model_usage@.len() == 0 && positive(
                    turns[t].used_tokens,
                ) ==> books_turn(
                    records[bookings_before(turns, t) as int],
                    meta,
                    file,
                    starts,
                    dir_name,
                    raw_len,
                    now,
                    t,
                )
        }),
{
    let turns = meta.turn_stats@;
    let s = meta_session(meta, file, dir_name, raw_len, now);
    let records = turns_records(s, starts, turns);
    lemma_session_bookings(s, starts, turns);
    assert forall|t: int, k: int|
        #![trigger turns[t].model_usage@[k]]
        0 <= t < turns.len() && 0 <= k < turns[t].model_usage@.len() && used(
            turns[t].model_usage@[k],
        ) implies books_call(
        records[(bookings_before(turns, t) + rank(used_calls(turns[t]), k)) as int],
        meta,
        file,
        starts,
        dir_name,
        raw_len,
        now,
        t,
        k,
    ) by {
        let turn = turns[t];
        let calls = turn.model_usage@;
        let chosen = used_calls(turn);
        lemma_call_places(s, starts, turn_number(turn), calls.len(), calls, chosen);
        assert(chosen.contains(k));
        lemma_rank_below(chosen, k, calls.len() as int);
        let i = rank(chosen, k) as int;
        let r = turn_records(s, starts, turn)[i];
        lemma_turn_places(s, starts, turns, t, i);
        assert(r == call_record(s, starts, turn_number(turn), calls.len(), k, calls[k]));
        lemma_share(raw_len, turns.len());
        lemma_share(s.turn_bytes, calls.len());
    }
    assert forall|t: int|
        0 <= t < turns.len() && (#[trigger] turns[t]).model_usage@.len() == 0 && positive(
            turns[t].used_tokens,
        ) implies books_turn(
        records[bookings_before(turns, t) as int],
        meta,
        file,
        starts,
        dir_name,
        raw_len,
        now,
        t,
    ) by {
        let turn = turns[t];
        let r = turn_records(s, starts, turn)[0];
        lemma_turn_places(s, starts, turns, t, 0);
        assert(r == uncalled_record(s, starts, turn));
        lemma_share(raw_len, turns.len());
        reveal_strlit(":");
        reveal_strlit("legacy");
        reveal_strlit(":legacy");
        let front = file.rel@ + ":"@ + decimal_int(goes_by(turn) as int);
        assert(front + ":"@ + "legacy"@ =~= front + ":legacy"@);
    }
}

proof fn lemma_share(bytes: u64, n: nat)
    requires
        n > 0,
    ensures
        share(bytes, n) == bytes as nat / n,
{
    assert(bytes as nat / n <= bytes as nat) by (nonlinear_arith)
        requires
            n > 0,
    ;
}

/// Whether a message belongs to turn `t` of a session: to its client, its identity and its
/// workspace, at the start of the turn. The key starts with the client and the session.
pub open spec fn belongs_message(
    m: MessageView,
    meta: AtomCodeMeta,
    file: SessionFile,
    starts: Map<i64, i64>,
    key: Option<Seq<char>>,
    label: Option<Seq<char>>,
    t: int,
    place: Seq<char>,
) -> bool {
    let number = goes_by(meta.turn_stats@[t]);
    let known = key is Some && meta.working_dir is Some && !is_blank(meta.working_dir->0@);
    &&& m.client == "atomcode"@
    &&& names(
        m.session_id,
        meta.id,
        match file.stem {
            Some(stem) => stem@,
            None => "unknown"@,
        },
    )
    &&& m.timestamp == if starts.contains_key(number) {
        starts[number]
    } else {
        last_touched(meta, file)
    }
    &&& m.tokens.cache_write == 0
    &&& m.tokens.reasoning == 0
    &&& m.dedup_key == Some(
        "atomcode:"@ + m.session_id + ":"@ + decimal_int(number as int) + ":"@ + place,
    )
    &&& m.workspace_key == if known {
        key
    } else {
        None
    }
    &&& m.workspace_label == if known {
        label
    } else {
        None
    }
}

/// Whether a message tells of call `k` of turn `t` of a session: of its model, its provider and its
/// tokens.
pub open spec fn messages_call(
    m: MessageView,
    meta: AtomCodeMeta,
    file: SessionFile,
    starts: Map<i64, i64>,
    key: Option<Seq<char>>,
    label: Option<Seq<char>>,
    t: int,
    k: int,
) -> bool {
    let call = meta.turn_stats@[t].model_usage@[k];
    &&& belongs_message(m, meta, file, starts, key, label, t, decimal(k as nat))
    &&& names(m.model_id, call.model_id, "unknown"@)
    &&& names(m.provider_id, call.provider_id, "atomcode"@)
    &&& m.tokens.input >= 0 && m.tokens.output >= 0 && m.tokens.cache_read >= 0
    &&& call.tokens matches Some(tokens) && says(m.tokens.input as u64, tokens.input) && says(
        m.tokens.output as u64,
        tokens.output,
    ) && says(m.tokens.cache_read as u64, tokens.cached_input)
}

/// Whether a message tells of turn `t` of a session, which lists no calls.
pub open spec fn messages_turn(
    m: MessageView,
    meta: AtomCodeMeta,
    file: SessionFile,
    starts: Map<i64, i64>,
    key: Option<Seq<char>>,
    label: Option<Seq<char>>,
    t: int,
) -> bool {
    &&& belongs_message(m, meta, file, starts, key, label, t, "legacy"@)
    &&& m.model_id == "unknown"@
    &&& m.provider_id == "atomcode"@
    &&& m.tokens.input >= 0
    &&& says(m.tokens.input as u64, meta.turn_stats@[t].used_tokens)
    &&& m.tokens.output == 0
    &&& m.tokens.cache_read == 0
}

/// The message of each call of a turn stands behind those of the calls before it that count.
proof fn lemma_call_message_places(
    o: OriginView,
    starts: Map<i64, i64>,
    turn: i64,
    first: Seq<AtomCodeModelUsage>,
    chosen: Set<int>,
)
    requires
        forall|k: int| 0 <= k < first.len() ==> (#[trigger] chosen.contains(k) == used(first[k])),
    ensures
        call_messages(o, starts, turn, first).len() == rank(chosen, first.len() as int),
        forall|k: int|
            0 <= k < first.len() && #[trigger] chosen.contains(k) ==> call_messages(
                o,
                starts,
                turn,
                first,
            )[rank(chosen, k) as int] == call_message(o, starts, turn, k, first[k]),
    decreases first.len(),
{
    if first.len() > 0 {
        let front = first.drop_last();
        let last = first.len() - 1;
        assert forall|k: int| 0 <= k < front.len() implies (#[trigger] chosen.contains(k) == used(
            front[k],
        )) by {
            assert(front[k] == first[k]);
        }
        lemma_call_message_places(o, starts, turn, front, chosen);
        assert(chosen.contains(last) == used(first[last]));
        assert(call_counts(first.last()) == used(first[last]));
        assert forall|k: int| 0 <= k < first.len() && #[trigger] chosen.contains(k) implies call_messages(
            o,
            starts,
            turn,
            first,
        )[rank(chosen, k) as int] == call_message(o, starts, turn, k, first[k]) by {
            if k < last {
                lemma_rank_below(chosen, k, last);
                assert(front[k] == first[k]);
            }
        }
    }
}

/// A turn has as many messages as bookings.
proof fn lemma_turn_message_bookings(o: OriginView, starts: Map<i64, i64>, turn: AtomCodeTurnStat)
    ensures
        turn_messages(o, starts, turn).len() == bookings(turn),
{
    if turn.model_usage@.len() > 0 {
        lemma_call_message_places(
            o,
            starts,
            turn_number(turn),
            turn.model_usage@,
            used_calls(turn),
        );
    }
}

/// A session has as many messages as bookings.
proof fn lemma_session_message_bookings(
    o: OriginView,
    starts: Map<i64, i64>,
    turns: Seq<AtomCodeTurnStat>,
)
    ensures
        turns_messages(o, starts, turns).len() == bookings_before(turns, turns.len() as int),
    decreases turns.len(),
{
    if turns.len() > 0 {
        let front = turns.drop_last();
        lemma_session_message_bookings(o, starts, front);
        lemma_turn_message_bookings(o, starts, turns.last());
        lemma_bookings_agree(turns, front, turns.len() - 1);
    }
}

/// The messages of each turn stand behind those of the turns before it.
proof fn lemma_turn_message_places(
    o: OriginView,
    starts: Map<i64, i64>,
    turns: Seq<AtomCodeTurnStat>,
    t: int,
    i: int,
)
    requires
        0 <= t < turns.len(),
        0 <= i < bookings(turns[t]),
    ensures
        bookings_before(turns, t) + i < turns_messages(o, starts, turns).len(),
        turns_messages(o, starts, turns)[bookings_before(turns, t) + i] == turn_messages(
            o,
            starts,
            turns[t],
        )[i],
    decreases turns.len(),
{
    let front = turns.drop_last();
    let last = turns.len() - 1;
    lemma_session_message_bookings(o, starts, front);
    lemma_turn_message_bookings(o, starts, turns.last());
    lemma_bookings_agree(turns, front, last);
    if t < last {
        assert(front[t] == turns[t]);
        lemma_bookings_agree(turns, front, t);
        lemma_turn_message_places(o, starts, front, t, i);
    }
}

/// Every call of a session that used tokens has its message, with its own model, its own provider
/// and its own tokens: it stands behind the messages of the turns before, and of the calls before
/// in its turn. A turn that lists no calls but counts tokens has one message. There are no others.
pub proof fn every_call_has_its_message(
    meta: AtomCodeMeta,
    file: SessionFile,
    starts: Map<i64, i64>,
    key: Option<Seq<char>>,
    label: Option<Seq<char>>,
)
    ensures
        ({
            let turns = meta.turn_stats@;
            let messages = turns_messages(meta_origin(meta, file, key, label), starts, turns);
            &&& messages.len() == bookings_before(turns, turns.len() as int)
            &&& forall|t: int, k: int|
                #![trigger turns[t].model_usage@[k]]
                0 <= t < turns.len() && 0 <= k < turns[t].model_usage@.len() && used(
                    turns[t].model_usage@[k],
                ) ==> messages_call(
                    messages[(bookings_before(turns, t) + rank(used_calls(turns[t]), k)) as int],
                    meta,
                    file,
                    starts,
                    key,
                    label,
                    t,
                    k,
                )
            &&& forall|t: int|
                0 <= t < turns.len() && (#[trigger] turns[t]).model_usage@.len() == 0 && positive(
                    turns[t].used_tokens,
                ) ==> messages_turn(
                    messages[bookings_before(turns, t) as int],
                    meta,
                    file,
                    starts,
                    key,
                    label,
                    t,
                )
        }),
{
    let turns = meta.turn_stats@;
    let o = meta_origin(meta, file, key, label);
    let messages = turns_messages(o, starts, turns);
    lemma_session_message_bookings(o, starts, turns);
    assert forall|t: int, k: int|
        #![trigger turns[t].model_usage@[k]]
        0 <= t < turns.len() && 0 <= k < turns[t].model_usage@.len() && used(
            turns[t].model_usage@[k],
        ) implies messages_call(
        messages[(bookings_before(turns, t) + rank(used_calls(turns[t]), k)) as int],
        meta,
        file,
        starts,
        key,
        label,
        t,
        k,
    ) by {
        let turn = turns[t];
        let calls = turn.model_usage@;
        let chosen = used_calls(turn);
        lemma_call_message_places(o, starts, turn_number(turn), calls, chosen);
        assert(chosen.contains(k));
        lemma_rank_below(chosen, k, calls.len() as int);
        let i = rank(chosen, k) as int;
        lemma_turn_message_places(o, starts, turns, t, i);
        assert(turn_messages(o, starts, turn)[i] == call_message(
            o,
            starts,
            turn_number(turn),
            k,
            calls[k],
        ));
    }
    assert forall|t: int|
        0 <= t < turns.len() && (#[trigger] turns[t]).model_usage@.len() == 0 && positive(
            turns[t].used_tokens,
        ) implies messages_turn(
        messages[bookings_before(turns, t) as int],
        meta,
        file,
        starts,
        key,
        label,
        t,
    ) by {
        let turn = turns[t];
        lemma_turn_message_places(o, starts, turns, t, 0);
        assert(turn_messages(o, starts, turn)[0] == uncalled_message(o, starts, turn));
    }
}

/// The number that a member of a document gives.
pub open spec fn number_at(json: JsonTree, key: Seq<char>) -> Option<i64> {
    match json.get(key) {
        Some(JsonTree::Number { exact, .. }) => exact,
        _ => None,
    }
}

/// The text that a member of a document gives.
pub open spec fn string_at(json: JsonTree, key: Seq<char>) -> Option<Seq<char>> {
    match json.get(key) {
        Some(JsonTree::Text(text)) => Some(text),
        _ => None,
    }
}

/// The items that a member of a document lists.
pub open spec fn list_at(json: JsonTree, key: Seq<char>) -> Seq<JsonTree> {
    match json.get(key) {
        Some(JsonTree::Array(items)) => items,
        _ => seq![],
    }
}

/// The places of the turns whose total is above zero.
pub open spec fn total_turns(turns: Seq<JsonTree>) -> Set<int> {
    Set::new(|t: int| 0 <= t < turns.len() && positive(number_at(turns[t], "total_tokens"@)))
}

/// Whether a time in milliseconds is that of a stamp: one before the year 2001, taken for
/// milliseconds, is in seconds.
pub open spec fn same_instant(ms: i64, stamp: i64) -> bool {
    ms == if stamp < 1_000_000_000_000 {
        stamp * 1000
    } else {
        stamp as int
    }
}

/// Whether a record tells of turn `t` of a session in the aggregate format: its total is taken for
/// input, whatever else the turn holds.
pub open spec fn books_total(
    r: RecordView,
    json: JsonTree,
    file: SessionFile,
    dir_name: Option<Seq<char>>,
    raw_len: u64,
    now: i64,
    t: int,
) -> bool {
    let turns = list_at(json, "turn_stats"@);
    &&& r.provider == Provider::AtomCode
    &&& r.project == (match (string_at(json, "working_dir"@), dir_name) {
        (Some(dir), Some(name)) => if is_blank(dir) {
            "unknown"@
        } else {
            name
        },
        _ => "unknown"@,
    })
    &&& r.session_id == (match string_at(json, "id"@) {
        Some(id) if id.len() > 0 => id,
        _ => match file.stem {
            Some(stem) => stem@,
            None => "unknown"@,
        },
    })
    &&& r.model == session_model(json)
    &&& exists|stamp: i64|
        #![trigger stamped(r.started_at, stamp, now)]
        stamped(r.started_at, stamp, now) && match (
            number_at(json, "updated_at"@),
            number_at(json, "created_at"@),
        ) {
            (Some(updated), _) => same_instant(stamp, updated),
            (None, Some(created)) => same_instant(stamp, created),
            (None, None) => stamp == file.mtime_ms,
        }
    &&& number_at(turns[t], "total_tokens"@) == Some(r.input_tokens as i64)
    &&& r.input_tokens <= i64::MAX
    &&& r.output_tokens == 0
    &&& r.cache_read_tokens == 0
    &&& r.cache_write_tokens == 0
    &&& r.cost_micros == 0
    &&& r.raw_bytes == raw_len as nat / turns.len()
    &&& r.fingerprint == file.rel@ + ":"@ + decimal(t as nat)
}

/// The record of each turn stands behind those of the turns before it that count.
proof fn lemma_total_places(
    s: SessionView,
    model: Seq<char>,
    turns: Seq<JsonTree>,
    chosen: Set<int>,
)
    requires
        forall|t: int|
            0 <= t < turns.len() ==> (#[trigger] chosen.contains(t) == positive(
                number_at(turns[t], "total_tokens"@),
            )),
    ensures
        aggregate_records(s, model, turns).len() == rank(chosen, turns.len() as int),
        forall|t: int|
            0 <= t < turns.len() && #[trigger] chosen.contains(t) ==> aggregate_records(
                s,
                model,
                turns,
            )[rank(chosen, t) as int] == aggregate_record(s, model, t, turns[t]),
    decreases turns.len(),
{
    if turns.len() > 0 {
        let front = turns.drop_last();
        let last = turns.len() - 1;
        assert forall|t: int| 0 <= t < front.len() implies (#[trigger] chosen.contains(t)
            == positive(number_at(front[t], "total_tokens"@))) by {
            assert(front[t] == turns[t]);
        }
        lemma_total_places(s, model, front, chosen);
        assert(chosen.contains(last) == positive(number_at(turns[last], "total_tokens"@)));
        assert forall|t: int| 0 <= t < turns.len() && #[trigger] chosen.contains(t) implies aggregate_records(
            s,
            model,
            turns,
        )[rank(chosen, t) as int] == aggregate_record(s, model, t, turns[t]) by {
            if t < last {
                lemma_rank_below(chosen, t, last);
                assert(front[t] == turns[t]);
            }
        }
    }
}

/// Every turn of a session in the aggregate format whose total is above zero has its record, with
/// that total as input: it stands behind the records of the turns before it. There are no other
/// records.
pub proof fn every_total_has_its_record(
    json: JsonTree,
    file: SessionFile,
    dir_name: Option<Seq<char>>,
    raw_len: u64,
    now: i64,
)
    requires
        number_at(json, "created_at"@) matches Some(v) ==> v * 1000 >= i64::MIN,
        number_at(json, "updated_at"@) matches Some(v) ==> v * 1000 >= i64::MIN,
    ensures
        ({
            let turns = list_at(json, "turn_stats"@);
            let records = aggregate_records(
                aggregate_session(json, file, dir_name, raw_len, now),
                session_model(json),
                session_turns(json),
            );
            &&& records.len() == rank(total_turns(turns), turns.len() as int)
            &&& forall|t: int|
                0 <= t < turns.len() && positive(
                    number_at(#[trigger] turns[t], "total_tokens"@),
                ) ==> books_total(
                    records[rank(total_turns(turns), t) as int],
                    json,
                    file,
                    dir_name,
                    raw_len,
                    now,
                    t,
                )
        }),
{
    let turns = list_at(json, "turn_stats"@);
    let s = aggregate_session(json, file, dir_name, raw_len, now);
    let model = session_model(json);
    let chosen = total_turns(turns);
    let records = aggregate_records(s, model, session_turns(json));
    assert(session_turns(json) =~= turns);
    lemma_total_places(s, model, turns, chosen);
    assert forall|t: int|
        0 <= t < turns.len() && positive(
            number_at(#[trigger] turns[t], "total_tokens"@),
        ) implies books_total(
        records[rank(chosen, t) as int],
        json,
        file,
        dir_name,
        raw_len,
        now,
        t,
    ) by {
        assert(chosen.contains(t));
        let r = records[rank(chosen, t) as int];
        assert(r == aggregate_record(s, model, t, turns[t]));
        lemma_share(raw_len, turns.len());
        assert(stamped(r.started_at, s.fallback_ts, now));
    }
}

/// The tokens of the records under a model.
pub open spec fn booked_under(records: Seq<RecordView>, model: Seq<char>) -> Counters
    decreases records.len(),
{
    if records.len() == 0 {
        Counters { input: 0, output: 0, cache_read: 0, cache_write: 0 }
    } else {
        let before = booked_under(records.drop_last(), model);
        let r = records.last();
        if r.model == model {
            before.plus(
                Counters {
                    input: r.input_tokens as int,
                    output: r.output_tokens as int,
                    cache_read: r.cache_read_tokens as int,
                    cache_write: r.cache_write_tokens as int,
                },
            )
        } else {
            before
        }
    }
}

/// What a counter of a session comes to.
pub open spec fn worth(given: Option<i64>) -> int {
    if given is Some && given->0 > 0 {
        given->0 as int
    } else {
        0
    }
}

/// The tokens of the calls under a model.
pub open spec fn used_under(calls: Seq<AtomCodeModelUsage>, model: Seq<char>) -> Counters
    decreases calls.len(),
{
    if calls.len() == 0 {
        Counters { input: 0, output: 0, cache_read: 0, cache_write: 0 }
    } else {
        let before = used_under(calls.drop_last(), model);
        let call = calls.last();
        if names(model, call.model_id, "unknown"@) && call.tokens is Some {
            before.plus(
                Counters {
                    input: worth(call.tokens->0.input),
                    output: worth(call.tokens->0.output),
                    cache_read: worth(call.tokens->0.cached_input),
                    cache_write: 0,
                },
            )
        } else {
            before
        }
    }
}

/// The tokens of the turns under a model: those of their calls; a turn that lists none counts its
/// own tokens as input of an unknown model.
pub open spec fn turns_under(turns: Seq<AtomCodeTurnStat>, model: Seq<char>) -> Counters
    decreases turns.len(),
{
    if turns.len() == 0 {
        Counters { input: 0, output: 0, cache_read: 0, cache_write: 0 }
    } else {
        let before = turns_under(turns.drop_last(), model);
        let turn = turns.last();
        if turn.model_usage@.len() > 0 {
            before.plus(used_under(turn.model_usage@, model))
        } else if model == "unknown"@ {
            before.plus(
                Counters {
                    input: worth(turn.used_tokens),
                    output: 0,
                    cache_read: 0,
                    cache_write: 0,
                },
            )
        } else {
            before
        }
    }
}

proof fn lemma_booked_append(a: Seq<RecordView>, b: Seq<RecordView>, model: Seq<char>)
    ensures
        booked_under(a + b, model) == booked_under(a, model).plus(booked_under(b, model)),
    decreases b.len(),
{
    if b.len() == 0 {
        assert(a + b =~= a);
    } else {
        lemma_booked_append(a, b.drop_last(), model);
        assert((a + b).drop_last() =~= a + b.drop_last());
    }
}

proof fn lemma_calls_booked(
    s: SessionView,
    starts: Map<i64, i64>,
    turn: i64,
    calls: nat,
    first: Seq<AtomCodeModelUsage>,
    model: Seq<char>,
)
    ensures
        booked_under(call_records(s, starts, turn, calls, first), model) == used_under(
            first,
            model,
        ),
    decreases first.len(),
{
    if first.len() > 0 {
        lemma_calls_booked(s, starts, turn, calls, first.drop_last(), model);
        let before = call_records(s, starts, turn, calls, first.drop_last());
        let all = call_records(s, starts, turn, calls, first);
        if call_counts(first.last()) {
            assert(all.drop_last() =~= before);
        }
    }
}

/// Tokens are booked under the model that used them: for every model the records of a session hold
/// as many tokens of each kind as the calls of that model, in whichever turn and place.
pub proof fn tokens_are_booked_under_their_models(
    s: SessionView,
    starts: Map<i64, i64>,
    turns: Seq<AtomCodeTurnStat>,
    model: Seq<char>,
)
    ensures
        booked_under(turns_records(s, starts, turns), model) == turns_under(turns, model),
    decreases turns.len(),
{
    if turns.len() > 0 {
        let turn = turns.last();
        let records = turn_records(s, starts, turn);
        tokens_are_booked_under_their_models(s, starts, turns.drop_last(), model);
        lemma_calls_booked(
            s,
            starts,
            turn_number(turn),
            turn.model_usage@.len(),
            turn.model_usage@,
            model,
        );
        if turn.model_usage@.len() == 0 {
            reveal_with_fuel(booked_under, 2);
            if records.len() > 0 {
                assert(records.drop_last() =~= Seq::<RecordView>::empty());
            }
        }
        lemma_booked_append(turns_records(s, starts, turns.drop_last()), records, model);
    }
}

/// The records that are read from a session in the per-call format are those of its calls and of
/// its turns without calls, in their places.
pub proof fn records_are_read_from_calls(
    meta: AtomCodeMeta,
    file: SessionFile,
    dir_name: Option<String>,
    starts: HashMap<i64, i64>,
    raw_len: u64,
    now: i64,
    r: Vec<UsageRecord>,
    t: int,
    k: int,
)
    requires
        call_ensures(meta_records, (&meta, &file, &dir_name, &starts, raw_len, now), r),
        0 <= t < meta.turn_stats@.len(),
        0 <= k < meta.turn_stats@[t].model_usage@.len(),
        used(meta.turn_stats@[t].model_usage@[k]),
    ensures
        ({
            let turns = meta.turn_stats@;
            let call = turns[t].model_usage@[k];
            let i = (bookings_before(turns, t) + rank(used_calls(turns[t]), k)) as int;
            &&& r@.len() == bookings_before(turns, turns.len() as int)
            &&& 0 <= i < r@.len()
            &&& books_call(
                r@[i]@,
                meta,
                file,
                starts@,
                opt_text(dir_name),
                raw_len,
                now,
                t,
                k,
            )
            &&& names(r@[i].usage.model@, call.model_id, "unknown"@)
            &&& says(r@[i].usage.input_tokens, call.tokens->0.input)
            &&& says(r@[i].usage.output_tokens, call.tokens->0.output)
            &&& says(r@[i].usage.cache_read_tokens, call.tokens->0.cached_input)
        }),
{
    let turns = meta.turn_stats@;
    every_call_has_its_record(meta, file, starts@, opt_text(dir_name), raw_len, now);
    assert(record_views(r@).len() == r@.len());
    let chosen = used_calls(turns[t]);
    assert(chosen.contains(k));
    lemma_rank_below(chosen, k, turns[t].model_usage@.len() as int);
    lemma_bookings_below(turns, t, turns.len() as int);
    let i = (bookings_before(turns, t) + rank(chosen, k)) as int;
    assert(turns[t].model_usage@[k] == meta.turn_stats@[t].model_usage@[k]);
    assert(record_views(r@)[i] == r@[i]@);
}

proof fn lemma_bookings_below(turns: Seq<AtomCodeTurnStat>, t: int, n: int)
    requires
        0 <= t < n,
    ensures
        bookings_before(turns, t) + bookings(turns[t]) <= bookings_before(turns, n),
    decreases n,
{
    if t < n - 1 {
        lemma_bookings_below(turns, t, n - 1);
    }
}

/// The records that are read from a session in the aggregate format are those of its totals, in
/// their places.
pub proof fn records_are_read_from_totals(
    json: Json,
    file: SessionFile,
    dir_name: Option<String>,
    raw_len: u64,
    now: i64,
    r: Vec<UsageRecord>,
    t: int,
)
    requires
        call_ensures(parse_json_new, (&json, &file, &dir_name, raw_len, now), r),
        number_at(json@, "created_at"@) matches Some(v) ==> v * 1000 >= i64::MIN,
        number_at(json@, "updated_at"@) matches Some(v) ==> v * 1000 >= i64::MIN,
        0 <= t < list_at(json@, "turn_stats"@).len(),
        positive(number_at(list_at(json@, "turn_stats"@)[t], "total_tokens"@)),
    ensures
        ({
            let turns = list_at(json@, "turn_stats"@);
            let i = rank(total_turns(turns), t) as int;
            &&& r@.len() == rank(total_turns(turns), turns.len() as int)
            &&& 0 <= i < r@.len()
            &&& books_total(r@[i]@, json@, file, opt_text(dir_name), raw_len, now, t)
            &&& number_at(turns[t], "total_tokens"@) == Some(r@[i].usage.input_tokens as i64)
            &&& r@[i].usage.output_tokens == 0
            &&& r@[i].usage.model@ == session_model(json@)
        }),
{
    let turns = list_at(json@, "turn_stats"@);
    every_total_has_its_record(json@, file, opt_text(dir_name), raw_len, now);
    assert(record_views(r@).len() == r@.len());
    let chosen = total_turns(turns);
    assert(chosen.contains(t));
    lemma_rank_below(chosen, t, turns.len() as int);
    assert(turns[t] == list_at(json@, "turn_stats"@)[t]);
    assert(record_views(r@)[rank(chosen, t) as int] == r@[rank(chosen, t) as int]@);
}

/// The time is asked for exactly where some turn of an aggregate session has a record and the
/// calendar does not reach the stamp of the session.
pub proof fn time_is_asked_for_where_a_stamp_is_out_of_reach(
    json: JsonTree,
    file: SessionFile,
    stamp: i64,
)
    requires
        match (number_at(json, "updated_at"@), number_at(json, "created_at"@)) {
            (Some(updated), _) => same_instant(stamp, updated),
            (None, Some(created)) => same_instant(stamp, created),
            (None, None) => stamp == file.mtime_ms,
        },
    ensures
        aggregate_asks_time(json, file) <==> (stamp < -8_334_601_228_800_000 || stamp
            > 8_210_266_876_799_999) && exists|t: int|
            0 <= t < list_at(json, "turn_stats"@).len() && positive(
                number_at(#[trigger] list_at(json, "turn_stats"@)[t], "total_tokens"@),
            ),
{
    let turns = list_at(json, "turn_stats"@);
    assert(session_turns(json) =~= turns);
    assert forall|t: int| 0 <= t < turns.len() implies (turn_total(#[trigger] turns[t]) > 0)
        == positive(number_at(turns[t], "total_tokens"@)) by {}
}

} // verus!
