//! What holds of every session.

use vstd::prelude::*;
use crate::atomcode::per_call::{
    call_counts, call_record, call_records, call_tokens, counted, meta_session, share, turn_key,
    turn_number, turn_records, turn_start, turns_records, SessionFile, SessionView,
};
use crate::atomcode::{AtomCodeMeta, AtomCodeModelUsage, AtomCodeTurnStat};
use crate::model::{
    lemma_total_counters_append, opt_text, total_counters, Counters, Provider, RecordView,
};
use crate::paths::{is_key_of, keys_apart};
use crate::text::{
    decimal, decimal_int, lemma_decimal_digits, lemma_decimal_injective,
    lemma_decimal_int_injective, lemma_split_at_colon,
};

verus! {

/// The tokens of a call.
pub open spec fn counters_of_call(call: AtomCodeModelUsage) -> Counters {
    Counters {
        input: call_tokens(call).0 as int,
        output: call_tokens(call).1 as int,
        cache_read: call_tokens(call).2 as int,
        cache_write: 0,
    }
}

/// The tokens of a run of calls.
pub open spec fn counters_of_calls(calls: Seq<AtomCodeModelUsage>) -> Counters
    decreases calls.len(),
{
    if calls.len() == 0 {
        Counters::none()
    } else {
        counters_of_calls(calls.drop_last()).plus(counters_of_call(calls.last()))
    }
}

/// The tokens of a turn: those of its calls, or else its own counter, as input.
pub open spec fn counters_of_turn(turn: AtomCodeTurnStat) -> Counters {
    if turn.model_usage@.len() > 0 {
        counters_of_calls(turn.model_usage@)
    } else {
        Counters { input: counted(turn.used_tokens) as int, ..Counters::none() }
    }
}

/// The tokens of a run of turns.
pub open spec fn counters_of_turns(turns: Seq<AtomCodeTurnStat>) -> Counters
    decreases turns.len(),
{
    if turns.len() == 0 {
        Counters::none()
    } else {
        counters_of_turns(turns.drop_last()).plus(counters_of_turn(turns.last()))
    }
}

proof fn lemma_call_tokens_kept(
    s: SessionView,
    starts: Map<i64, i64>,
    turn: i64,
    calls: nat,
    first: Seq<AtomCodeModelUsage>,
)
    ensures
        total_counters(call_records(s, starts, turn, calls, first)) == counters_of_calls(first),
    decreases first.len(),
{
    if first.len() > 0 {
        lemma_call_tokens_kept(s, starts, turn, calls, first.drop_last());
        let before = call_records(s, starts, turn, calls, first.drop_last());
        let all = call_records(s, starts, turn, calls, first);
        if call_counts(first.last()) {
            assert(all.drop_last() =~= before);
        }
    }
}

/// No tokens are lost, none are made up and none change their kind: the records of a session hold
/// as many tokens of input, of output and of cache reads as its calls do, together with the
/// counters of the turns that list no calls, which are input. The counter of a turn that lists
/// calls is not counted a second time, and nothing is written to the cache.
pub proof fn session_tokens_are_kept(
    s: SessionView,
    starts: Map<i64, i64>,
    turns: Seq<AtomCodeTurnStat>,
)
    ensures
        total_counters(turns_records(s, starts, turns)) == counters_of_turns(turns),
        counters_of_turns(turns).cache_write == 0,
    decreases turns.len(),
{
    if turns.len() > 0 {
        let turn = turns.last();
        let records = turn_records(s, starts, turn);
        session_tokens_are_kept(s, starts, turns.drop_last());
        lemma_call_tokens_kept(
            s,
            starts,
            turn_number(turn),
            turn.model_usage@.len(),
            turn.model_usage@,
        );
        lemma_calls_write_no_cache(turn.model_usage@);
        if turn.model_usage@.len() == 0 && counted(turn.used_tokens) > 0 {
            assert(records.drop_last() =~= Seq::<RecordView>::empty());
        }
        lemma_total_counters_append(turns_records(s, starts, turns.drop_last()), records);
    }
}

proof fn lemma_calls_write_no_cache(calls: Seq<AtomCodeModelUsage>)
    ensures
        counters_of_calls(calls).cache_write == 0,
    decreases calls.len(),
{
    if calls.len() > 0 {
        lemma_calls_write_no_cache(calls.drop_last());
    }
}

/// Whether a record is one of `s`, counts something and is not priced yet.
pub open spec fn sound_record(s: SessionView, r: RecordView) -> bool {
    &&& r.provider == Provider::AtomCode
    &&& r.project == s.project
    &&& r.session_id == s.session_id
    &&& r.tokens() > 0
    &&& r.cache_write_tokens == 0
    &&& r.cost_micros == 0
    &&& r.raw_bytes <= s.turn_bytes
}

proof fn lemma_calls_sound(
    s: SessionView,
    starts: Map<i64, i64>,
    turn: i64,
    calls: nat,
    first: Seq<AtomCodeModelUsage>,
)
    requires
        calls > 0,
    ensures
        forall|i: int|
            0 <= i < call_records(s, starts, turn, calls, first).len() ==> sound_record(
                s,
                #[trigger] call_records(s, starts, turn, calls, first)[i],
            ),
    decreases first.len(),
{
    if first.len() > 0 {
        lemma_calls_sound(s, starts, turn, calls, first.drop_last());
        let before = call_records(s, starts, turn, calls, first.drop_last());
        let all = call_records(s, starts, turn, calls, first);
        assert(s.turn_bytes as nat / calls <= s.turn_bytes) by (nonlinear_arith)
            requires
                calls > 0,
        ;
        assert forall|i: int| 0 <= i < all.len() implies sound_record(s, #[trigger] all[i]) by {
            if i < before.len() {
                assert(all[i] == before[i]);
            } else {
                assert(all[i] == call_record(
                    s,
                    starts,
                    turn,
                    calls,
                    first.len() - 1,
                    first.last(),
                ));
            }
        }
    }
}

/// Every record of a session belongs to it, holds at least one token, writes nothing to the
/// cache, costs nothing yet, and claims no more than its turn's share of the file.
pub proof fn session_records_are_sound(
    s: SessionView,
    starts: Map<i64, i64>,
    turns: Seq<AtomCodeTurnStat>,
)
    ensures
        forall|i: int|
            0 <= i < turns_records(s, starts, turns).len() ==> sound_record(
                s,
                #[trigger] turns_records(s, starts, turns)[i],
            ),
    decreases turns.len(),
{
    if turns.len() > 0 {
        let turn = turns.last();
        session_records_are_sound(s, starts, turns.drop_last());
        if turn.model_usage@.len() > 0 {
            lemma_calls_sound(
                s,
                starts,
                turn_number(turn),
                turn.model_usage@.len(),
                turn.model_usage@,
            );
        }
        let before = turns_records(s, starts, turns.drop_last());
        let new = turn_records(s, starts, turn);
        let all = turns_records(s, starts, turns);
        assert forall|i: int| 0 <= i < all.len() implies sound_record(s, #[trigger] all[i]) by {
            if i < before.len() {
                assert(all[i] == before[i]);
            } else {
                assert(all[i] == new[i - before.len()]);
            }
        }
    }
}

/// Whether no two turns have the same number.
pub open spec fn distinct_numbers(turns: Seq<AtomCodeTurnStat>) -> bool {
    forall|i: int, j: int|
        0 <= i < j < turns.len() ==> turn_number(#[trigger] turns[i]) != turn_number(
            #[trigger] turns[j],
        )
}

/// Whether no two records have the same key.
pub open spec fn distinct_keys(records: Seq<RecordView>) -> bool {
    forall|i: int, j: int|
        0 <= i < j < records.len() ==> (#[trigger] records[i]).fingerprint != (
        #[trigger] records[j]).fingerprint
}

/// Keys of one file differ where their turns do, or else where their places do.
proof fn lemma_keys_differ(rel: Seq<char>, a: i64, x: Seq<char>, b: i64, y: Seq<char>)
    requires
        turn_key(rel, a, x) == turn_key(rel, b, y),
    ensures
        a == b,
        x == y,
{
    let n = rel.len() as int + 1;
    reveal_strlit(":");
    let left = decimal_int(a as int) + ":"@ + x;
    let right = decimal_int(b as int) + ":"@ + y;
    assert(turn_key(rel, a, x).skip(n) =~= left);
    assert(turn_key(rel, b, y).skip(n) =~= right);
    lemma_decimal_int_injective(a as int, b as int);
    lemma_decimal_int_injective(b as int, a as int);
    lemma_split_at_colon(decimal_int(a as int), x, decimal_int(b as int), y);
}

proof fn lemma_call_keys(
    s: SessionView,
    starts: Map<i64, i64>,
    turn: i64,
    calls: nat,
    first: Seq<AtomCodeModelUsage>,
)
    ensures
        distinct_keys(call_records(s, starts, turn, calls, first)),
        forall|i: int|
            0 <= i < call_records(s, starts, turn, calls, first).len() ==> exists|n: nat|
                n < first.len() && (#[trigger] call_records(s, starts, turn, calls, first)[i]).fingerprint
                    == turn_key(s.rel, turn, #[trigger] decimal(n)),
    decreases first.len(),
{
    if first.len() > 0 {
        lemma_call_keys(s, starts, turn, calls, first.drop_last());
        let before = call_records(s, starts, turn, calls, first.drop_last());
        let all = call_records(s, starts, turn, calls, first);
        let last = (first.len() - 1) as nat;
        assert forall|i: int| 0 <= i < all.len() implies exists|n: nat|
            n < first.len() && (#[trigger] all[i]).fingerprint == turn_key(
                s.rel,
                turn,
                #[trigger] decimal(n),
            ) by {
            if i < before.len() {
                assert(all[i] == before[i]);
                let n = choose|n: nat|
                    n < first.len() - 1 && before[i].fingerprint == turn_key(
                        s.rel,
                        turn,
                        #[trigger] decimal(n),
                    );
                assert(all[i].fingerprint == turn_key(s.rel, turn, decimal(n)));
            } else {
                assert(all[i].fingerprint == turn_key(s.rel, turn, decimal(last)));
            }
        }
        assert forall|i: int, j: int| 0 <= i < j < all.len() implies (#[trigger] all[i]).fingerprint
            != (#[trigger] all[j]).fingerprint by {
            assert(all[i] == before[i]);
            if j < before.len() {
                assert(all[j] == before[j]);
            } else {
                let n = choose|n: nat|
                    n < first.len() - 1 && before[i].fingerprint == turn_key(
                        s.rel,
                        turn,
                        #[trigger] decimal(n),
                    );
                if all[i].fingerprint == all[j].fingerprint {
                    lemma_keys_differ(s.rel, turn, decimal(n), turn, decimal(last));
                    lemma_decimal_injective(n, last);
                }
            }
        }
    }
}

/// Whether each key of a run of records is one of a turn with a number among `turns`.
spec fn keys_from(rel: Seq<char>, records: Seq<RecordView>, turns: Seq<AtomCodeTurnStat>) -> bool {
    forall|i: int|
        0 <= i < records.len() ==> exists|t: int, place: Seq<char>|
            0 <= t < turns.len() && (#[trigger] records[i]).fingerprint == #[trigger] turn_key(
                rel,
                turn_number(turns[t]),
                place,
            )
}

proof fn lemma_turn_keys(s: SessionView, starts: Map<i64, i64>, turn: AtomCodeTurnStat)
    ensures
        distinct_keys(turn_records(s, starts, turn)),
        forall|i: int|
            0 <= i < turn_records(s, starts, turn).len() ==> exists|place: Seq<char>|
                (#[trigger] turn_records(s, starts, turn)[i]).fingerprint == #[trigger] turn_key(
                    s.rel,
                    turn_number(turn),
                    place,
                ),
{
    let number = turn_number(turn);
    let calls = turn.model_usage@;
    let records = turn_records(s, starts, turn);
    if calls.len() > 0 {
        lemma_call_keys(s, starts, number, calls.len(), calls);
        assert forall|i: int| 0 <= i < records.len() implies exists|place: Seq<char>|
            (#[trigger] records[i]).fingerprint == #[trigger] turn_key(s.rel, number, place) by {
            let n = choose|n: nat|
                n < calls.len() && records[i].fingerprint == turn_key(
                    s.rel,
                    number,
                    #[trigger] decimal(n),
                );
            assert(records[i].fingerprint == turn_key(s.rel, number, decimal(n)));
        }
    } else if records.len() > 0 {
        assert(records[0].fingerprint == turn_key(s.rel, number, "legacy"@));
    }
}

proof fn lemma_session_keys(s: SessionView, starts: Map<i64, i64>, turns: Seq<AtomCodeTurnStat>)
    requires
        distinct_numbers(turns),
    ensures
        distinct_keys(turns_records(s, starts, turns)),
        keys_from(s.rel, turns_records(s, starts, turns), turns),
    decreases turns.len(),
{
    if turns.len() > 0 {
        let front = turns.drop_last();
        let last = turns.len() - 1;
        assert(distinct_numbers(front)) by {
            assert forall|i: int, j: int| 0 <= i < j < front.len() implies turn_number(
                #[trigger] front[i],
            ) != turn_number(#[trigger] front[j]) by {
                assert(front[i] == turns[i] && front[j] == turns[j]);
            }
        }
        lemma_session_keys(s, starts, front);
        lemma_turn_keys(s, starts, turns.last());
        let before = turns_records(s, starts, front);
        let new = turn_records(s, starts, turns.last());
        let all = turns_records(s, starts, turns);
        assert forall|i: int| 0 <= i < all.len() implies exists|t: int, place: Seq<char>|
            0 <= t < turns.len() && (#[trigger] all[i]).fingerprint == #[trigger] turn_key(
                s.rel,
                turn_number(turns[t]),
                place,
            ) by {
            if i < before.len() {
                assert(all[i] == before[i]);
                let (t, place) = choose|t: int, place: Seq<char>|
                    0 <= t < front.len() && before[i].fingerprint == #[trigger] turn_key(
                        s.rel,
                        turn_number(front[t]),
                        place,
                    );
                assert(front[t] == turns[t]);
                assert(all[i].fingerprint == turn_key(s.rel, turn_number(turns[t]), place));
            } else {
                assert(all[i] == new[i - before.len()]);
                let place = choose|place: Seq<char>|
                    new[i - before.len()].fingerprint == #[trigger] turn_key(
                        s.rel,
                        turn_number(turns.last()),
                        place,
                    );
                assert(all[i].fingerprint == turn_key(s.rel, turn_number(turns[last]), place));
            }
        }
        assert forall|i: int, j: int| 0 <= i < j < all.len() implies (#[trigger] all[i]).fingerprint
            != (#[trigger] all[j]).fingerprint by {
            if j < before.len() {
                assert(all[i] == before[i] && all[j] == before[j]);
            } else if i >= before.len() {
                assert(all[i] == new[i - before.len()] && all[j] == new[j - before.len()]);
            } else {
                assert(all[i] == before[i] && all[j] == new[j - before.len()]);
                let (t, x) = choose|t: int, place: Seq<char>|
                    0 <= t < front.len() && before[i].fingerprint == #[trigger] turn_key(
                        s.rel,
                        turn_number(front[t]),
                        place,
                    );
                let y = choose|place: Seq<char>|
                    new[j - before.len()].fingerprint == #[trigger] turn_key(
                        s.rel,
                        turn_number(turns.last()),
                        place,
                    );
                if all[i].fingerprint == all[j].fingerprint {
                    lemma_keys_differ(
                        s.rel,
                        turn_number(front[t]),
                        x,
                        turn_number(turns.last()),
                        y,
                    );
                    assert(front[t] == turns[t]);
                }
            }
        }
    }
}

/// Within a session no record is taken for a duplicate of another, as long as its turns are
/// numbered apart.
pub proof fn session_keys_are_distinct(
    s: SessionView,
    starts: Map<i64, i64>,
    turns: Seq<AtomCodeTurnStat>,
)
    requires
        distinct_numbers(turns),
    ensures
        distinct_keys(turns_records(s, starts, turns)),
{
    lemma_session_keys(s, starts, turns);
}

/// Every record of a turn starts when the turn did: at its own stamp where it has one, else at that
/// of the session.
pub proof fn records_start_with_their_turn(
    s: SessionView,
    starts: Map<i64, i64>,
    turn: AtomCodeTurnStat,
)
    ensures
        forall|i: int|
            0 <= i < turn_records(s, starts, turn).len() ==> (
            #[trigger] turn_records(s, starts, turn)[i]).started_at == turn_start(
                s,
                starts,
                turn_number(turn),
            ),
{
    if turn.model_usage@.len() > 0 {
        lemma_call_starts(
            s,
            starts,
            turn_number(turn),
            turn.model_usage@.len(),
            turn.model_usage@,
        );
    }
}

proof fn lemma_call_starts(
    s: SessionView,
    starts: Map<i64, i64>,
    turn: i64,
    calls: nat,
    first: Seq<AtomCodeModelUsage>,
)
    ensures
        forall|i: int|
            0 <= i < call_records(s, starts, turn, calls, first).len() ==> (
            #[trigger] call_records(s, starts, turn, calls, first)[i]).started_at == turn_start(
                s,
                starts,
                turn,
            ),
    decreases first.len(),
{
    if first.len() > 0 {
        lemma_call_starts(s, starts, turn, calls, first.drop_last());
        let before = call_records(s, starts, turn, calls, first.drop_last());
        let all = call_records(s, starts, turn, calls, first);
        assert forall|i: int| 0 <= i < all.len() implies (#[trigger] all[i]).started_at
            == turn_start(s, starts, turn) by {
            if i < before.len() {
                assert(all[i] == before[i]);
            }
        }
    }
}

/// The bytes that a run of records claims of its file.
pub open spec fn claimed_bytes(records: Seq<RecordView>) -> int
    decreases records.len(),
{
    if records.len() == 0 {
        0
    } else {
        claimed_bytes(records.drop_last()) + records.last().raw_bytes
    }
}

proof fn lemma_claimed_append(a: Seq<RecordView>, b: Seq<RecordView>)
    ensures
        claimed_bytes(a + b) == claimed_bytes(a) + claimed_bytes(b),
    decreases b.len(),
{
    if b.len() == 0 {
        assert(a + b =~= a);
    } else {
        lemma_claimed_append(a, b.drop_last());
        assert((a + b).drop_last() =~= a + b.drop_last());
    }
}

proof fn lemma_calls_claim(
    s: SessionView,
    starts: Map<i64, i64>,
    turn: i64,
    calls: nat,
    first: Seq<AtomCodeModelUsage>,
)
    ensures
        claimed_bytes(call_records(s, starts, turn, calls, first)) <= first.len() * share(
            s.turn_bytes,
            calls,
        ),
    decreases first.len(),
{
    let each = share(s.turn_bytes, calls);
    let n = first.len();
    if n > 0 {
        lemma_calls_claim(s, starts, turn, calls, first.drop_last());
        let before = call_records(s, starts, turn, calls, first.drop_last());
        let all = call_records(s, starts, turn, calls, first);
        assert((n - 1) * each + each == n * each) by (nonlinear_arith);
        if call_counts(first.last()) {
            assert(all.drop_last() =~= before);
        }
    }
}

/// So many shares come to no more than the whole.
pub proof fn lemma_shares_fit(bytes: u64, n: nat)
    requires
        n > 0,
    ensures
        n * share(bytes, n) <= bytes,
{
    let whole = bytes as nat;
    assert(n * (whole / n) <= whole) by (nonlinear_arith)
        requires
            n > 0,
    ;
}

proof fn lemma_turns_claim(s: SessionView, starts: Map<i64, i64>, turns: Seq<AtomCodeTurnStat>)
    ensures
        claimed_bytes(turns_records(s, starts, turns)) <= turns.len() * s.turn_bytes,
    decreases turns.len(),
{
    let n = turns.len();
    let each = s.turn_bytes;
    if n > 0 {
        let turn = turns.last();
        let records = turn_records(s, starts, turn);
        lemma_turns_claim(s, starts, turns.drop_last());
        lemma_claimed_append(turns_records(s, starts, turns.drop_last()), records);
        assert((n - 1) * each + each == n * each) by (nonlinear_arith);
        if turn.model_usage@.len() > 0 {
            lemma_calls_claim(
                s,
                starts,
                turn_number(turn),
                turn.model_usage@.len(),
                turn.model_usage@,
            );
            lemma_shares_fit(s.turn_bytes, turn.model_usage@.len());
        } else if counted(turn.used_tokens) > 0 {
            assert(records.drop_last() =~= Seq::<RecordView>::empty());
            assert(claimed_bytes(records) == each) by {
                reveal_with_fuel(claimed_bytes, 2);
            }
        }
    }
}

/// The records of a session together claim no more bytes than its file has.
pub proof fn records_share_the_file(
    s: SessionView,
    starts: Map<i64, i64>,
    turns: Seq<AtomCodeTurnStat>,
    raw_len: u64,
)
    requires
        s.turn_bytes == share(raw_len, turns.len()),
    ensures
        claimed_bytes(turns_records(s, starts, turns)) <= raw_len,
{
    lemma_turns_claim(s, starts, turns);
    if turns.len() > 0 {
        lemma_shares_fit(raw_len, turns.len());
    }
}

/// Whether two records tell the same, but for their keys and, where `starts` does not hold, for
/// when they start.
pub open spec fn same_but_key(a: RecordView, b: RecordView, starts: bool) -> bool {
    &&& b == (RecordView { fingerprint: b.fingerprint, started_at: b.started_at, ..a })
    &&& starts ==> a.started_at == b.started_at
}

/// Whether two runs of records tell the same, but for their keys and, where `starts` does not
/// hold, for when they start.
pub open spec fn same_but_keys(a: Seq<RecordView>, b: Seq<RecordView>, starts: bool) -> bool {
    a.len() == b.len() && forall|i: int|
        0 <= i < a.len() ==> same_but_key(#[trigger] a[i], b[i], starts)
}

/// Whether no key of one run of records is one of the other.
pub open spec fn share_no_key(a: Seq<RecordView>, b: Seq<RecordView>) -> bool {
    forall|i: int, j: int|
        0 <= i < a.len() && 0 <= j < b.len() ==> (#[trigger] a[i]).fingerprint != (
        #[trigger] b[j]).fingerprint
}

/// Whether two sessions are the same but for the place of their files and for their stamps.
pub open spec fn same_session(s: SessionView, t: SessionView) -> bool {
    t == (SessionView { rel: t.rel, fallback_ts: t.fallback_ts, ..s })
}

/// Whether every record has a key of a file at `rel`.
pub open spec fn keyed_below(records: Seq<RecordView>, rel: Seq<char>) -> bool {
    forall|i: int| 0 <= i < records.len() ==> is_key_of((#[trigger] records[i]).fingerprint, rel)
}

proof fn lemma_turn_key(rel: Seq<char>, turn: i64, place: Seq<char>)
    ensures
        is_key_of(turn_key(rel, turn, place), rel),
{
    reveal_strlit(":");
    reveal_strlit("-");
    lemma_decimal_digits(turn as nat);
    let key = turn_key(rel, turn, place);
    assert(key.take(rel.len() as int) =~= rel);
    assert(key[rel.len() as int + 1] == decimal_int(turn as int)[0]);
    if turn >= 0 {
        assert(decimal_int(turn as int)[0] == decimal(turn as nat)[0]);
    }
}

proof fn lemma_calls_two_roots(
    s: SessionView,
    t: SessionView,
    starts: Map<i64, i64>,
    turn: i64,
    calls: nat,
    first: Seq<AtomCodeModelUsage>,
)
    requires
        same_session(s, t),
    ensures
        same_but_keys(
            call_records(s, starts, turn, calls, first),
            call_records(t, starts, turn, calls, first),
            s.fallback_ts == t.fallback_ts,
        ),
        keyed_below(call_records(s, starts, turn, calls, first), s.rel),
    decreases first.len(),
{
    if first.len() > 0 {
        lemma_calls_two_roots(s, t, starts, turn, calls, first.drop_last());
        lemma_turn_key(s.rel, turn, decimal((first.len() - 1) as nat));
    }
}

/// The records of a session, read with its file at one place, tell the same as with its file at
/// another, and each has a key of the place.
pub proof fn lemma_turns_two_roots(
    s: SessionView,
    t: SessionView,
    starts: Map<i64, i64>,
    turns: Seq<AtomCodeTurnStat>,
)
    requires
        same_session(s, t),
    ensures
        same_but_keys(
            turns_records(s, starts, turns),
            turns_records(t, starts, turns),
            s.fallback_ts == t.fallback_ts,
        ),
        keyed_below(turns_records(s, starts, turns), s.rel),
    decreases turns.len(),
{
    if turns.len() > 0 {
        let turn = turns.last();
        let same = s.fallback_ts == t.fallback_ts;
        lemma_turns_two_roots(s, t, starts, turns.drop_last());
        lemma_calls_two_roots(
            s,
            t,
            starts,
            turn_number(turn),
            turn.model_usage@.len(),
            turn.model_usage@,
        );
        lemma_turn_key(s.rel, turn_number(turn), "legacy"@);
        let a = turns_records(s, starts, turns.drop_last());
        let b = turns_records(t, starts, turns.drop_last());
        let c = turn_records(s, starts, turn);
        let d = turn_records(t, starts, turn);
        assert(same_but_keys(c, d, same));
        assert(keyed_below(c, s.rel));
        assert forall|i: int| 0 <= i < (a + c).len() implies same_but_key(
            #[trigger] (a + c)[i],
            (b + d)[i],
            same,
        ) by {
            if i >= a.len() {
                assert((a + c)[i] == c[i - a.len()]);
                assert((b + d)[i] == d[i - a.len()]);
            } else {
                assert((a + c)[i] == a[i]);
                assert((b + d)[i] == b[i]);
            }
        }
        assert forall|i: int| 0 <= i < (a + c).len() implies is_key_of(
            (#[trigger] (a + c)[i]).fingerprint,
            s.rel,
        ) by {
            if i >= a.len() {
                assert((a + c)[i] == c[i - a.len()]);
            } else {
                assert((a + c)[i] == a[i]);
            }
        }
    }
}

/// Records with keys of places that are apart share no key.
pub proof fn lemma_share_no_key(
    a: Seq<RecordView>,
    b: Seq<RecordView>,
    rel_a: Seq<char>,
    rel_b: Seq<char>,
)
    requires
        keyed_below(a, rel_a),
        keyed_below(b, rel_b),
        keys_apart(rel_a, rel_b),
    ensures
        share_no_key(a, b),
{
    assert forall|i: int, j: int| 0 <= i < a.len() && 0 <= j < b.len() implies (
    #[trigger] a[i]).fingerprint != (#[trigger] b[j]).fingerprint by {
        assert(is_key_of(a[i].fingerprint, rel_a));
        assert(is_key_of(b[j].fingerprint, rel_b));
    }
}

/// A session that lies below two roots is told apart: no record of one is taken for a duplicate
/// of one of the other, and but for the keys they tell the same. Where the session carries no
/// stamp the records may also start at different times, which are those of the files.
pub proof fn session_below_two_roots(
    meta: AtomCodeMeta,
    a: SessionFile,
    b: SessionFile,
    starts: Map<i64, i64>,
    dir_name: Option<Seq<char>>,
    raw_len: u64,
    now: i64,
)
    requires
        opt_text(a.stem) == opt_text(b.stem),
        keys_apart(a.rel@, b.rel@),
    ensures
        ({
            let s = meta_session(meta, a, dir_name, raw_len, now);
            let t = meta_session(meta, b, dir_name, raw_len, now);
            let x = turns_records(s, starts, meta.turn_stats@);
            let y = turns_records(t, starts, meta.turn_stats@);
            &&& share_no_key(x, y)
            &&& same_but_keys(
                x,
                y,
                meta.updated_at is Some || meta.created_at is Some || a.mtime_ms == b.mtime_ms,
            )
        }),
{
    let s = meta_session(meta, a, dir_name, raw_len, now);
    let t = meta_session(meta, b, dir_name, raw_len, now);
    lemma_turns_two_roots(s, t, starts, meta.turn_stats@);
    lemma_turns_two_roots(t, s, starts, meta.turn_stats@);
    lemma_share_no_key(
        turns_records(s, starts, meta.turn_stats@),
        turns_records(t, starts, meta.turn_stats@),
        a.rel@,
        b.rel@,
    );
}

} // verus!
