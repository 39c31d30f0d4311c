//! Sessions in the per-call format as messages that all clients share.

use std::collections::HashMap;

use vstd::prelude::*;
use vstd::string::*;
use crate::atomcode::laws::{distinct_numbers, session_keys_are_distinct};
use crate::atomcode::per_call::{
    call_counts, call_records, call_tokens, count, counted, identify, key_of, session_identity,
    session_stamp, stamp_or, turn_key, turn_number, turn_records, turns_records, SessionFile,
    SessionView,
};
use crate::atomcode::stamps::{load_turn_timestamps, turn_starts};
use crate::atomcode::{AtomCodeJsonlLine, AtomCodeMeta, AtomCodeModelUsage, AtomCodeTurnStat};
use crate::model::{name_or, named, opt_text, RecordView};
use crate::text::{blank, decimal, decimal_u64, is_blank};

verus! {

/// The tokens of a message. The cache counters are no part of `input`.
#[derive(Debug, Clone, Copy, PartialEq, Eq, Structural)]
pub struct TokenBreakdown {
    pub input: i64,
    pub output: i64,
    pub cache_read: i64,
    pub cache_write: i64,
    pub reasoning: i64,
}

/// One model call, as all clients share it. Its cost is resolved later.
#[derive(Debug)]
pub struct UnifiedMessage {
    pub client: String,
    pub model_id: String,
    pub provider_id: String,
    pub session_id: String,
    /// Milliseconds since the Unix epoch.
    pub timestamp: i64,
    pub tokens: TokenBreakdown,
    pub dedup_key: Option<String>,
    pub workspace_key: Option<String>,
    pub workspace_label: Option<String>,
}

/// The mathematical value of a [`UnifiedMessage`].
#[verifier::ext_equal]
pub struct MessageView {
    pub client: Seq<char>,
    pub model_id: Seq<char>,
    pub provider_id: Seq<char>,
    pub session_id: Seq<char>,
    pub timestamp: i64,
    pub tokens: TokenBreakdown,
    pub dedup_key: Option<Seq<char>>,
    pub workspace_key: Option<Seq<char>>,
    pub workspace_label: Option<Seq<char>>,
}

impl View for UnifiedMessage {
    type V = MessageView;

    open spec fn view(&self) -> MessageView {
        MessageView {
            client: self.client@,
            model_id: self.model_id@,
            provider_id: self.provider_id@,
            session_id: self.session_id@,
            timestamp: self.timestamp,
            tokens: self.tokens,
            dedup_key: opt_text(self.dedup_key),
            workspace_key: opt_text(self.workspace_key),
            workspace_label: opt_text(self.workspace_label),
        }
    }
}

/// The values of a run of messages.
pub open spec fn message_views(messages: Seq<UnifiedMessage>) -> Seq<MessageView> {
    messages.map_values(|m: UnifiedMessage| m@)
}

/// What the messages of one session have in common.
pub struct Origin {
    pub session_id: String,
    pub fallback_ts: i64,
    pub workspace_key: Option<String>,
    pub workspace_label: Option<String>,
}

/// The mathematical value of an [`Origin`].
#[verifier::ext_equal]
pub struct OriginView {
    pub session_id: Seq<char>,
    pub fallback_ts: i64,
    pub workspace_key: Option<Seq<char>>,
    pub workspace_label: Option<Seq<char>>,
}

impl View for Origin {
    type V = OriginView;

    open spec fn view(&self) -> OriginView {
        OriginView {
            session_id: self.session_id@,
            fallback_ts: self.fallback_ts,
            workspace_key: opt_text(self.workspace_key),
            workspace_label: opt_text(self.workspace_label),
        }
    }
}

/// The tokens of a message by its three counters.
pub open spec fn breakdown(input: u64, output: u64, cache_read: u64) -> TokenBreakdown {
    TokenBreakdown {
        input: input as i64,
        output: output as i64,
        cache_read: cache_read as i64,
        cache_write: 0,
        reasoning: 0,
    }
}

/// When a turn started.
pub open spec fn turn_stamp(o: OriginView, starts: Map<i64, i64>, turn: i64) -> i64 {
    if starts.contains_key(turn) {
        starts[turn]
    } else {
        o.fallback_ts
    }
}

/// The message of a turn, with its model, provider, tokens and place.
pub open spec fn message_of(
    o: OriginView,
    starts: Map<i64, i64>,
    turn: i64,
    model: Seq<char>,
    provider: Seq<char>,
    tokens: TokenBreakdown,
    place: Seq<char>,
) -> MessageView {
    MessageView {
        client: "atomcode"@,
        model_id: model,
        provider_id: provider,
        session_id: o.session_id,
        timestamp: turn_stamp(o, starts, turn),
        tokens,
        dedup_key: Some(turn_key("atomcode:"@ + o.session_id, turn, place)),
        workspace_key: o.workspace_key,
        workspace_label: o.workspace_label,
    }
}

/// The message of the call at `index` of a turn.
pub open spec fn call_message(
    o: OriginView,
    starts: Map<i64, i64>,
    turn: i64,
    index: int,
    call: AtomCodeModelUsage,
) -> MessageView {
    let (input, output, cache_read) = call_tokens(call);
    message_of(
        o,
        starts,
        turn,
        named(opt_text(call.model_id), "unknown"@),
        named(opt_text(call.provider_id), "atomcode"@),
        breakdown(input, output, cache_read),
        decimal(index as nat),
    )
}

/// The messages of the first calls of a turn.
pub open spec fn call_messages(
    o: OriginView,
    starts: Map<i64, i64>,
    turn: i64,
    first: Seq<AtomCodeModelUsage>,
) -> Seq<MessageView>
    decreases first.len(),
{
    if first.len() == 0 {
        seq![]
    } else {
        let before = call_messages(o, starts, turn, first.drop_last());
        if call_counts(first.last()) {
            before.push(call_message(o, starts, turn, first.len() - 1, first.last()))
        } else {
            before
        }
    }
}

/// The message of a turn that lists no calls.
pub open spec fn uncalled_message(
    o: OriginView,
    starts: Map<i64, i64>,
    turn: AtomCodeTurnStat,
) -> MessageView {
    message_of(
        o,
        starts,
        turn_number(turn),
        "unknown"@,
        "atomcode"@,
        breakdown(counted(turn.used_tokens), 0, 0),
        "legacy"@,
    )
}

/// The messages of a turn: one for each call that used tokens. A turn that lists no calls has
/// one message, under an unknown model, where it used tokens at all.
pub open spec fn turn_messages(
    o: OriginView,
    starts: Map<i64, i64>,
    turn: AtomCodeTurnStat,
) -> Seq<MessageView> {
    if turn.model_usage@.len() > 0 {
        call_messages(o, starts, turn_number(turn), turn.model_usage@)
    } else if counted(turn.used_tokens) > 0 {
        seq![uncalled_message(o, starts, turn)]
    } else {
        seq![]
    }
}

/// The messages of a run of turns.
pub open spec fn turns_messages(
    o: OriginView,
    starts: Map<i64, i64>,
    turns: Seq<AtomCodeTurnStat>,
) -> Seq<MessageView>
    decreases turns.len(),
{
    if turns.len() == 0 {
        seq![]
    } else {
        turns_messages(o, starts, turns.drop_last()) + turn_messages(o, starts, turns.last())
    }
}

/// The workspace of a session: `key` and `label` are what its directory is known under. A
/// session without a directory has neither, and there is no label without a key.
pub open spec fn workspace_of(
    dir: Option<Seq<char>>,
    key: Option<Seq<char>>,
    label: Option<Seq<char>>,
) -> (Option<Seq<char>>, Option<Seq<char>>) {
    match dir {
        Some(dir) => if is_blank(dir) || key is None {
            (None, None)
        } else {
            (key, label)
        },
        None => (None, None),
    }
}

/// What the messages of a session have in common.
pub open spec fn meta_origin(
    meta: AtomCodeMeta,
    file: SessionFile,
    key: Option<Seq<char>>,
    label: Option<Seq<char>>,
) -> OriginView {
    let workspace = workspace_of(opt_text(meta.working_dir), key, label);
    OriginView {
        session_id: session_identity(opt_text(meta.id), opt_text(file.stem)),
        fallback_ts: session_stamp(meta.updated_at, meta.created_at, file.mtime_ms),
        workspace_key: workspace.0,
        workspace_label: workspace.1,
    }
}

/// A copy of an optional string.
fn copied(s: &Option<String>) -> (r: Option<String>)
    ensures
        opt_text(r) == opt_text(*s),
{
    match s {
        Some(s) => Some(s.clone()),
        None => None,
    }
}

/// The workspace of a session, by what its directory is known under.
pub fn atomcode_workspace(
    meta: &AtomCodeMeta,
    key: &Option<String>,
    label: &Option<String>,
) -> (r: (Option<String>, Option<String>))
    ensures
        (opt_text(r.0), opt_text(r.1)) == workspace_of(
            opt_text(meta.working_dir),
            opt_text(*key),
            opt_text(*label),
        ),
{
    match &meta.working_dir {
        Some(dir) => if blank(dir.as_str()) || key.is_none() {
            (None, None)
        } else {
            (copied(key), copied(label))
        },
        None => (None, None),
    }
}

/// A message of a session.
fn new_message(
    o: &Origin,
    turn: i64,
    timestamp: i64,
    model_id: String,
    provider_id: String,
    tokens: TokenBreakdown,
    place: &str,
) -> (r: UnifiedMessage)
    ensures
        r@ == (MessageView {
            client: "atomcode"@,
            model_id: model_id@,
            provider_id: provider_id@,
            session_id: o.session_id@,
            timestamp,
            tokens,
            dedup_key: Some(turn_key("atomcode:"@ + o.session_id@, turn, place@)),
            workspace_key: opt_text(o.workspace_key),
            workspace_label: opt_text(o.workspace_label),
        }),
{
    let mut prefix = "atomcode:".to_owned();
    prefix.append(o.session_id.as_str());
    UnifiedMessage {
        client: "atomcode".to_owned(),
        model_id,
        provider_id,
        session_id: o.session_id.clone(),
        timestamp,
        tokens,
        dedup_key: Some(key_of(prefix.as_str(), turn, place)),
        workspace_key: copied(&o.workspace_key),
        workspace_label: copied(&o.workspace_label),
    }
}

/// Appends the messages of a turn.
fn push_messages(
    o: &Origin,
    starts: &HashMap<i64, i64>,
    turn: &AtomCodeTurnStat,
    out: &mut Vec<UnifiedMessage>,
)
    ensures
        message_views(final(out)@) == message_views(old(out)@) + turn_messages(o@, starts@, *turn),
{
    broadcast use vstd::std_specs::hash::group_hash_axioms;

    let number: i64 = match turn.turn_id {
        Some(id) => id,
        None => 0,
    };
    let timestamp: i64 = match starts.get(&number) {
        Some(ts) => *ts,
        None => o.fallback_ts,
    };
    let ghost before = message_views(out@);
    let calls: usize = turn.model_usage.len();
    if calls == 0 {
        let used: u64 = count(turn.used_tokens);
        if used == 0 {
            assert(before + turn_messages(o@, starts@, *turn) =~= before);
            return;
        }
        let tokens = TokenBreakdown {
            input: used as i64,
            output: 0,
            cache_read: 0,
            cache_write: 0,
            reasoning: 0,
        };
        out.push(
            new_message(
                o,
                number,
                timestamp,
                "unknown".to_owned(),
                "atomcode".to_owned(),
                tokens,
                "legacy",
            ),
        );
        assert(message_views(out@) =~= before + turn_messages(o@, starts@, *turn));
        return;
    }
    let mut i: usize = 0;
    assert(before + call_messages(o@, starts@, number, turn.model_usage@.take(0)) =~= before);
    while i < calls
        invariant
            i <= calls == turn.model_usage@.len(),
            calls > 0,
            number == turn_number(*turn),
            timestamp == turn_stamp(o@, starts@, number),
            message_views(out@) == before + call_messages(
                o@,
                starts@,
                number,
                turn.model_usage@.take(i as int),
            ),
        decreases calls - i,
    {
        let call = &turn.model_usage[i];
        let ghost first = turn.model_usage@.take(i + 1);
        assert(first.drop_last() =~= turn.model_usage@.take(i as int));
        assert(first.last() == *call);
        if let Some(counters) = &call.tokens {
            let input: u64 = count(counters.input);
            let output: u64 = count(counters.output);
            let cache_read: u64 = count(counters.cached_input);
            if input > 0 || output > 0 || cache_read > 0 {
                let ghost so_far = message_views(out@);
                let tokens = TokenBreakdown {
                    input: input as i64,
                    output: output as i64,
                    cache_read: cache_read as i64,
                    cache_write: 0,
                    reasoning: 0,
                };
                out.push(
                    new_message(
                        o,
                        number,
                        timestamp,
                        name_or(&call.model_id, "unknown"),
                        name_or(&call.provider_id, "atomcode"),
                        tokens,
                        decimal_u64(i as u64).as_str(),
                    ),
                );
                assert(message_views(out@) =~= so_far.push(out@.last()@));
                assert(message_views(out@) =~= before + call_messages(o@, starts@, number, first));
            }
        }
        i += 1;
    }
    assert(turn.model_usage@.take(calls as int) =~= turn.model_usage@);
}

/// The messages of a session in the per-call format: none where there is no header, else those
/// of its turns. `lines` are the lines of the file that stamps the turns, `key` and `label` are
/// what the directory of the session is known under.
pub fn parse_atomcode_file(
    meta: &Option<AtomCodeMeta>,
    lines: &Vec<AtomCodeJsonlLine>,
    file: &SessionFile,
    key: &Option<String>,
    label: &Option<String>,
) -> (r: Vec<UnifiedMessage>)
    ensures
        match *meta {
            Some(meta) => message_views(r@) == turns_messages(
                meta_origin(meta, *file, opt_text(*key), opt_text(*label)),
                turn_starts(lines@),
                meta.turn_stats@,
            ),
            None => r@.len() == 0,
        },
{
    let mut out: Vec<UnifiedMessage> = Vec::new();
    if let Some(meta) = meta {
        let (workspace_key, workspace_label) = atomcode_workspace(meta, key, label);
        let o = Origin {
            session_id: identify(&meta.id, &file.stem),
            fallback_ts: stamp_or(meta.updated_at, meta.created_at, file.mtime_ms),
            workspace_key,
            workspace_label,
        };
        let starts = load_turn_timestamps(lines);
        let ghost turns = meta.turn_stats@;
        let mut i: usize = 0;
        while i < meta.turn_stats.len()
            invariant
                i <= meta.turn_stats@.len(),
                turns == meta.turn_stats@,
                message_views(out@) == turns_messages(o@, starts@, turns.take(i as int)),
            decreases meta.turn_stats@.len() - i,
        {
            assert(turns.take(i + 1).drop_last() =~= turns.take(i as int));
            push_messages(&o, &starts, &meta.turn_stats[i], &mut out);
            i += 1;
        }
        assert(turns.take(turns.len() as int) =~= turns);
    }
    out
}

/// Whether a message and a record tell of the same call.
pub open spec fn tells_the_same(m: MessageView, r: RecordView) -> bool {
    &&& m.model_id == r.model
    &&& m.tokens == breakdown(r.input_tokens, r.output_tokens, r.cache_read_tokens)
    &&& r.cache_write_tokens == 0
    &&& m.dedup_key == Some(r.fingerprint)
}

/// Whether the messages and the records of a session tell of the same calls.
pub open spec fn tell_the_same(messages: Seq<MessageView>, records: Seq<RecordView>) -> bool {
    &&& messages.len() == records.len()
    &&& forall|i: int|
        0 <= i < records.len() ==> tells_the_same(#[trigger] messages[i], records[i])
}

proof fn lemma_calls_agree(
    o: OriginView,
    s: SessionView,
    starts: Map<i64, i64>,
    turn: i64,
    calls: nat,
    first: Seq<AtomCodeModelUsage>,
)
    requires
        s.rel == "atomcode:"@ + o.session_id,
    ensures
        tell_the_same(
            call_messages(o, starts, turn, first),
            call_records(s, starts, turn, calls, first),
        ),
    decreases first.len(),
{
    if first.len() > 0 {
        lemma_calls_agree(o, s, starts, turn, calls, first.drop_last());
    }
}

/// Messages and records of a session tell of the same calls, in the same order: a message has
/// the model and the tokens of its record, and the key that the record would have in a file
/// named after the session.
pub proof fn messages_match_records(
    o: OriginView,
    s: SessionView,
    starts: Map<i64, i64>,
    turns: Seq<AtomCodeTurnStat>,
)
    requires
        s.rel == "atomcode:"@ + o.session_id,
    ensures
        tell_the_same(turns_messages(o, starts, turns), turns_records(s, starts, turns)),
    decreases turns.len(),
{
    if turns.len() > 0 {
        let turn = turns.last();
        messages_match_records(o, s, starts, turns.drop_last());
        lemma_calls_agree(
            o,
            s,
            starts,
            turn_number(turn),
            turn.model_usage@.len(),
            turn.model_usage@,
        );
        let messages = turns_messages(o, starts, turns.drop_last());
        let records = turns_records(s, starts, turns.drop_last());
        let new_messages = turn_messages(o, starts, turn);
        let new_records = turn_records(s, starts, turn);
        assert(tell_the_same(new_messages, new_records));
        assert forall|i: int| 0 <= i < (records + new_records).len() implies tells_the_same(
            #[trigger] (messages + new_messages)[i],
            (records + new_records)[i],
        ) by {
            if i >= records.len() {
                assert((messages + new_messages)[i] == new_messages[i - records.len()]);
            }
        }
    }
}

/// Within a session no message is taken for a duplicate of another, as long as its turns are
/// numbered apart.
pub proof fn message_keys_are_distinct(
    o: OriginView,
    starts: Map<i64, i64>,
    turns: Seq<AtomCodeTurnStat>,
)
    requires
        distinct_numbers(turns),
    ensures
        forall|i: int, j: int|
            0 <= i < j < turns_messages(o, starts, turns).len() ==> (
            #[trigger] turns_messages(o, starts, turns)[i]).dedup_key != (
            #[trigger] turns_messages(o, starts, turns)[j]).dedup_key,
{
    let s = SessionView {
        project: seq![],
        session_id: o.session_id,
        rel: "atomcode:"@ + o.session_id,
        fallback_ts: o.fallback_ts,
        turn_bytes: 0,
        now: 0,
    };
    messages_match_records(o, s, starts, turns);
    session_keys_are_distinct(s, starts, turns);
    let messages = turns_messages(o, starts, turns);
    let records = turns_records(s, starts, turns);
    assert forall|i: int, j: int| 0 <= i < j < messages.len() implies (
    #[trigger] messages[i]).dedup_key != (#[trigger] messages[j]).dedup_key by {
        assert(records[i].fingerprint != records[j].fingerprint);
    }
}

/// The value of a message is what its fields hold, each under its own name.
pub proof fn message_value_is_its_fields(m: UnifiedMessage)
    ensures
        m@.client == m.client@,
        m@.model_id == m.model_id@,
        m@.provider_id == m.provider_id@,
        m@.session_id == m.session_id@,
        m@.timestamp == m.timestamp,
        m@.tokens.input == m.tokens.input,
        m@.tokens.output == m.tokens.output,
        m@.tokens.cache_read == m.tokens.cache_read,
        m@.tokens.cache_write == m.tokens.cache_write,
        m@.tokens.reasoning == m.tokens.reasoning,
        m@.dedup_key == opt_text(m.dedup_key),
        m@.workspace_key == opt_text(m.workspace_key),
        m@.workspace_label == opt_text(m.workspace_label),
{
}

/// A run of messages has a value for each, in order.
pub proof fn messages_are_taken_one_by_one(messages: Seq<UnifiedMessage>, i: int)
    requires
        0 <= i < messages.len(),
    ensures
        message_views(messages).len() == messages.len(),
        message_views(messages)[i] == messages[i]@,
{
}

/// A session in a directory that is known under a key has that workspace, with its label; any other
/// has none.
pub proof fn known_directories_are_workspaces(
    dir: Seq<char>,
    key: Seq<char>,
    label: Option<Seq<char>>,
)
    ensures
        !is_blank(dir) ==> workspace_of(Some(dir), Some(key), label) == (Some(key), label),
        is_blank(dir) ==> workspace_of(Some(dir), Some(key), label) == (
            None::<Seq<char>>,
            None::<Seq<char>>,
        ),
        workspace_of(Some(dir), None, label) == (None::<Seq<char>>, None::<Seq<char>>),
        workspace_of(None, Some(key), label) == (None::<Seq<char>>, None::<Seq<char>>),
        workspace_of(None, None, label) == (None::<Seq<char>>, None::<Seq<char>>),
{
}

} // verus!
