//! The messages of a database, and their records.

use vstd::prelude::*;
use vstd::string::*;
use crate::clock::{in_calendar, instant_or, reaches, started_at, utc_now};
use crate::json::{json_of_text, parse_json, Json, JsonTree};
use crate::model::{
    lemma_rank_below, name_or, named, opt_text, rank, record_views, Provider, RecordView, Usage,
    UsageRecord,
};
use crate::paths::{ends_in_component, may_be_file_name, path_file_name, without_closing};
use crate::text::{blank, byte_len, is_blank};

verus! {

/// A message of the database, with the directory of its session.
#[derive(Debug)]
pub struct MessageRow {
    pub message_id: String,
    pub session_id: String,
    /// The message itself, as JSON.
    pub data: String,
    pub directory: String,
    /// When the row was made, in milliseconds since the Unix epoch.
    pub time_created: i64,
}

/// A number: what is missing is zero.
pub open spec fn number(v: Option<JsonTree>) -> i64 {
    match v {
        Some(json) => json.truncated(),
        None => 0,
    }
}

/// A counter: what is missing or negative counts as zero.
pub open spec fn counter(v: Option<JsonTree>) -> u64 {
    if number(v) > 0 {
        number(v) as u64
    } else {
        0
    }
}

/// The counters of a message.
pub struct Counters {
    pub input: u64,
    pub output: u64,
    pub cache_read: u64,
    pub cache_write: u64,
}

/// The counters of a message, where it carries any.
pub open spec fn message_counters(message: JsonTree) -> Option<Counters> {
    match message.get("tokens"@) {
        Some(tokens) => if tokens is Object {
            let cache = tokens.get("cache"@);
            Some(
                Counters {
                    input: counter(tokens.get("input"@)),
                    output: counter(tokens.get("output"@)),
                    cache_read: match cache {
                        Some(cache) => counter(cache.get("read"@)),
                        None => 0,
                    },
                    cache_write: match cache {
                        Some(cache) => counter(cache.get("write"@)),
                        None => 0,
                    },
                },
            )
        } else {
            None
        },
        None => None,
    }
}

/// Whether any counter is above zero.
pub open spec fn counts(c: Counters) -> bool {
    c.input > 0 || c.output > 0 || c.cache_read > 0 || c.cache_write > 0
}

/// The model of a message: its own, or that of its `model` member.
pub open spec fn model_of_message(message: JsonTree) -> Seq<char> {
    let name = match message.text_at("modelID"@) {
        Some(name) => Some(name),
        None => match message.get("model"@) {
            Some(model) => model.text_at("modelID"@),
            None => None,
        },
    };
    named(name, "unknown"@)
}

/// The stamp of a message: the creation in its `time` member, or that of its row.
pub open spec fn message_stamp(message: JsonTree, time_created: i64) -> i64 {
    let created = match message.get("time"@) {
        Some(time) => time.integer_at("created"@),
        None => None,
    };
    match created {
        Some(ts) => ts,
        None => time_created,
    }
}

/// Whether a message may be one of the assistant: its role does not say otherwise.
pub open spec fn by_assistant(message: JsonTree) -> bool {
    match message.text_at("role"@) {
        Some(role) => role == "assistant"@,
        None => true,
    }
}

/// The counters of a message that has a record.
pub open spec fn recorded_counters(message: JsonTree) -> Option<Counters> {
    match message_counters(message) {
        Some(c) => if by_assistant(message) && counts(c) {
            Some(c)
        } else {
            None
        },
        None => None,
    }
}

/// The record of a message: there is one exactly where it is one of the assistant and carries
/// counters that are not all zero.
pub open spec fn message_record(
    message: JsonTree,
    session_id: Seq<char>,
    project: Seq<char>,
    message_id: Seq<char>,
    raw_bytes: u64,
    time_created: i64,
    now: i64,
) -> Option<RecordView> {
    match recorded_counters(message) {
        Some(c) => Some(
            RecordView {
                provider: Provider::CodeArts,
                project,
                session_id,
                model: model_of_message(message),
                started_at: instant_or(message_stamp(message, time_created), now),
                input_tokens: c.input,
                output_tokens: c.output,
                cache_read_tokens: c.cache_read,
                cache_write_tokens: c.cache_write,
                cost_micros: 0,
                raw_bytes,
                fingerprint: "message:"@ + message_id,
            },
        ),
        None => None,
    }
}

/// The record of a message as it was parsed: none where it is no JSON.
pub open spec fn parsed_record(
    parsed: Result<JsonTree, Seq<char>>,
    session_id: Seq<char>,
    project: Seq<char>,
    message_id: Seq<char>,
    raw_bytes: u64,
    time_created: i64,
    now: i64,
) -> Option<RecordView> {
    match parsed {
        Ok(message) => message_record(
            message,
            session_id,
            project,
            message_id,
            raw_bytes,
            time_created,
            now,
        ),
        Err(_) => None,
    }
}

/// The value of an optional record.
pub open spec fn opt_record(r: Option<UsageRecord>) -> Option<RecordView> {
    match r {
        Some(r) => Some(r@),
        None => None,
    }
}

/// The project of a session, by its directory and the last component of that.
pub open spec fn directory_project(directory: Seq<char>, name: Option<Seq<char>>) -> Seq<char> {
    if is_blank(directory) {
        "unknown"@
    } else {
        named(name, "unknown"@)
    }
}

/// A number: what is missing, or is no number, is zero; a fraction is cut off.
pub fn json_i64(v: Option<&Json>) -> (r: i64)
    ensures
        r == number(
            match v {
                Some(json) => Some(json@),
                None => None,
            },
        ),
{
    match v {
        Some(json) => json.as_truncated(),
        None => 0,
    }
}

/// A counter: what is missing or negative counts as zero.
fn counter_of(v: Option<&Json>) -> (r: u64)
    ensures
        r == counter(
            match v {
                Some(json) => Some(json@),
                None => None,
            },
        ),
{
    let n: i64 = json_i64(v);
    if n > 0 {
        n as u64
    } else {
        0
    }
}

/// The counters of a message, where it carries any.
fn counters_of(message: &Json) -> (r: Option<Counters>)
    ensures
        r == message_counters(message@),
{
    let tokens: &Json = match message.get("tokens") {
        Some(tokens) => tokens,
        None => return None,
    };
    if !tokens.is_object() {
        return None;
    }
    let (cache_read, cache_write): (u64, u64) = match tokens.get("cache") {
        Some(cache) => (counter_of(cache.get("read")), counter_of(cache.get("write"))),
        None => (0, 0),
    };
    Some(
        Counters {
            input: counter_of(tokens.get("input")),
            output: counter_of(tokens.get("output")),
            cache_read,
            cache_write,
        },
    )
}

/// The model of a message.
fn model_name(message: &Json) -> (r: String)
    ensures
        r@ == model_of_message(message@),
{
    let name: Option<&str> = match message.text_at("modelID") {
        Some(name) => Some(name),
        None => match message.get("model") {
            Some(model) => model.text_at("modelID"),
            None => None,
        },
    };
    let name: Option<String> = match name {
        Some(name) => Some(name.to_owned()),
        None => None,
    };
    name_or(&name, "unknown")
}

/// The stamp of a message.
fn stamp_of(message: &Json, time_created: i64) -> (r: i64)
    ensures
        r == message_stamp(message@, time_created),
{
    let created: Option<i64> = match message.get("time") {
        Some(time) => time.integer_at("created"),
        None => None,
    };
    match created {
        Some(ts) => ts,
        None => time_created,
    }
}

/// Whether a message may be one of the assistant.
fn is_by_assistant(message: &Json) -> (r: bool)
    ensures
        r == by_assistant(message@),
{
    match message.text_at("role") {
        Some(role) => role.to_owned() == "assistant".to_owned(),
        None => true,
    }
}

/// The counters of a message that has a record.
fn recorded(message: &Json) -> (r: Option<Counters>)
    ensures
        r == recorded_counters(message@),
{
    if !is_by_assistant(message) {
        return None;
    }
    let c: Counters = match counters_of(message) {
        Some(c) => c,
        None => return None,
    };
    if c.input == 0 && c.output == 0 && c.cache_read == 0 && c.cache_write == 0 {
        return None;
    }
    Some(c)
}

/// Whether a message has a record whose stamp the calendar does not reach.
pub open spec fn message_asks_time(message: JsonTree, time_created: i64) -> bool {
    recorded_counters(message) is Some && !in_calendar(message_stamp(message, time_created))
}

/// Whether a message has a record whose stamp the calendar does not reach, so that the time has to
/// be read.
fn needs_time(message: &Json, time_created: i64) -> (r: bool)
    ensures
        r == message_asks_time(message@, time_created),
{
    recorded(message).is_some() && !reaches(stamp_of(message, time_created))
}

/// The record of a message. `time_created` is the stamp of its row; `now` stands in for a stamp
/// that the calendar does not reach.
pub fn record_of_message(
    message: &Json,
    session_id: &str,
    project: &str,
    message_id: &str,
    raw_bytes: u64,
    time_created: i64,
    now: i64,
) -> (r: Option<UsageRecord>)
    ensures
        opt_record(r) == message_record(
            message@,
            session_id@,
            project@,
            message_id@,
            raw_bytes,
            time_created,
            now,
        ),
{
    let c: Counters = match recorded(message) {
        Some(c) => c,
        None => return None,
    };
    let mut fingerprint = "message:".to_owned();
    fingerprint.append(message_id);
    Some(
        UsageRecord::new(
            Provider::CodeArts,
            project.to_owned(),
            session_id.to_owned(),
            Usage {
                model: model_name(message),
                started_at: started_at(stamp_of(message, time_created), now),
                input_tokens: c.input,
                output_tokens: c.output,
                cache_read_tokens: c.cache_read,
                cache_write_tokens: c.cache_write,
                cost_micros: 0,
            },
            raw_bytes,
            fingerprint,
        ),
    )
}

/// The record of a message, from its text: none where the text is no JSON, the message is not one
/// of the assistant, it carries no counters, or they are all zero. `time_created` is the stamp of
/// its row.
pub fn parse_message(
    session_id: &str,
    project: &str,
    message_id: &str,
    data: &str,
    raw_bytes: u64,
    time_created: i64,
) -> (r: Option<UsageRecord>)
    ensures
        exists|now: i64|
            opt_record(r) == #[trigger] parsed_record(
                json_of_text(data@),
                session_id@,
                project@,
                message_id@,
                raw_bytes,
                time_created,
                now,
            ),
{
    let message: Json = match parse_json(data) {
        Ok(message) => message,
        Err(_) => {
            assert(None::<RecordView> == parsed_record(
                json_of_text(data@),
                session_id@,
                project@,
                message_id@,
                raw_bytes,
                time_created,
                0,
            ));
            return None;
        },
    };
    let now: i64 = if needs_time(&message, time_created) {
        utc_now()
    } else {
        0
    };
    let r = record_of_message(
        &message,
        session_id,
        project,
        message_id,
        raw_bytes,
        time_created,
        now,
    );
    assert(opt_record(r) == parsed_record(
        json_of_text(data@),
        session_id@,
        project@,
        message_id@,
        raw_bytes,
        time_created,
        now,
    ));
    r
}

/// The project of a session, by its directory and the last component of that.
pub fn project_named(directory: &str, name: &Option<String>) -> (r: String)
    ensures
        r@ == directory_project(directory@, opt_text(*name)),
{
    if blank(directory) {
        "unknown".to_owned()
    } else {
        name_or(name, "unknown")
    }
}

/// The last component of a directory, or "unknown" where it has none.
pub fn project_name(directory: &str) -> (r: String)
    ensures
        exists|name: Option<Seq<char>>|
            may_be_file_name(directory@, name) && r@ == #[trigger] directory_project(
                directory@,
                name,
            ),
        forall|name: Seq<char>|
            #[trigger] ends_in_component(without_closing(directory@), name) && !is_blank(
                directory@,
            ) ==> r@ == name,
{
    let name: Option<String> = path_file_name(directory);
    let r = project_named(directory, &name);
    assert(r@ == directory_project(directory@, opt_text(name)));
    r
}

/// The record of a row, by the last component of its directory.
pub open spec fn row_record(row: MessageRow, name: Option<Seq<char>>, now: i64) -> Option<
    RecordView,
> {
    parsed_record(
        json_of_text(row.data@),
        row.session_id@,
        directory_project(row.directory@, name),
        row.message_id@,
        byte_len(row.data@),
        row.time_created,
        now,
    )
}

/// The records of a run of rows, by the last component of the directory of each.
pub open spec fn rows_records(
    rows: Seq<MessageRow>,
    names: Seq<Option<Seq<char>>>,
    nows: Seq<i64>,
) -> Seq<RecordView>
    decreases rows.len(),
{
    if rows.len() == 0 {
        seq![]
    } else {
        let before = rows_records(rows.drop_last(), names.drop_last(), nows.drop_last());
        match row_record(rows.last(), names.last(), nows.last()) {
            Some(record) => before.push(record),
            None => before,
        }
    }
}

/// Whether each name may be the last component of the directory of its row.
pub open spec fn may_be_names(rows: Seq<MessageRow>, names: Seq<Option<Seq<char>>>) -> bool {
    names.len() == rows.len() && forall|i: int|
        0 <= i < rows.len() ==> may_be_file_name(rows[i].directory@, #[trigger] names[i])
}

/// The records of the rows of a database, in order. A row without a record is passed over.
pub fn scan_db(rows: &Vec<MessageRow>) -> (r: Vec<UsageRecord>)
    ensures
        exists|names: Seq<Option<Seq<char>>>, nows: Seq<i64>|
            {
                &&& may_be_names(rows@, names)
                &&& nows.len() == rows@.len()
                &&& record_views(r@) == #[trigger] rows_records(rows@, names, nows)
            },
{
    let mut out: Vec<UsageRecord> = Vec::new();
    let ghost mut names: Seq<Option<Seq<char>>> = seq![];
    let ghost mut nows: Seq<i64> = seq![];
    let mut i: usize = 0;
    while i < rows.len()
        invariant
            i <= rows@.len(),
            may_be_names(rows@.take(i as int), names),
            nows.len() == i,
            record_views(out@) == rows_records(rows@.take(i as int), names, nows),
        decreases rows@.len() - i,
    {
        let row = &rows[i];
        let project: String = project_name(row.directory.as_str());
        let raw_bytes: u64 = row.data.as_str().len() as u64;
        let record = parse_message(
            row.session_id.as_str(),
            project.as_str(),
            row.message_id.as_str(),
            row.data.as_str(),
            raw_bytes,
            row.time_created,
        );
        let ghost first = rows@.take(i + 1);
        proof {
            let name = choose|name: Option<Seq<char>>|
                may_be_file_name(row.directory@, name) && project@ == #[trigger] directory_project(
                    row.directory@,
                    name,
                );
            let now = choose|now: i64|
                opt_record(record) == #[trigger] parsed_record(
                    json_of_text(row.data@),
                    row.session_id@,
                    project@,
                    row.message_id@,
                    raw_bytes,
                    row.time_created,
                    now,
                );
            assert(raw_bytes == byte_len(row.data@));
            assert(opt_record(record) == row_record(*row, name, now));
            assert(names.push(name).drop_last() =~= names);
            assert(nows.push(now).drop_last() =~= nows);
            assert(first.drop_last() =~= rows@.take(i as int));
            assert(first.last() == *row);
            names = names.push(name);
            nows = nows.push(now);
            assert(may_be_names(first, names)) by {
                assert forall|j: int| 0 <= j < first.len() implies may_be_file_name(
                    first[j].directory@,
                    #[trigger] names[j],
                ) by {
                    if j < i {
                        assert(names[j] == names.drop_last()[j]);
                        assert(first[j] == rows@.take(i as int)[j]);
                    }
                }
            }
        }
        if let Some(record) = record {
            let ghost before = record_views(out@);
            out.push(record);
            assert(record_views(out@) =~= before.push(record@));
        }
        i += 1;
    }
    assert(rows@.take(rows@.len() as int) =~= rows@);
    out
}

/// Every record of a message counts tokens and is not priced yet; its key is that of the
/// message, so that two messages share a key only where they share their identity.
pub proof fn message_records_are_sound(
    message: JsonTree,
    session_id: Seq<char>,
    project: Seq<char>,
    message_id: Seq<char>,
    raw_bytes: u64,
    time_created: i64,
    now: i64,
)
    ensures
        message_record(
            message,
            session_id,
            project,
            message_id,
            raw_bytes,
            time_created,
            now,
        ) matches Some(r) ==> {
            &&& r.provider == Provider::CodeArts
            &&& r.session_id == session_id
            &&& r.project == project
            &&& r.tokens() > 0
            &&& r.cost_micros == 0
            &&& r.fingerprint.skip(8) == message_id
        },
{
    reveal_strlit("message:");
    assert(("message:"@ + message_id).skip(8) =~= message_id);
}

/// A message without counters has no record.
pub proof fn uncounted_messages_have_no_record(
    message: JsonTree,
    session_id: Seq<char>,
    project: Seq<char>,
    message_id: Seq<char>,
    raw_bytes: u64,
    time_created: i64,
    now: i64,
)
    requires
        message.get("tokens"@) is None,
    ensures
        message_record(
            message,
            session_id,
            project,
            message_id,
            raw_bytes,
            time_created,
            now,
        ) is None,
{
}

/// A message of the user has no record, whatever it carries.
pub proof fn user_messages_have_no_record(
    message: JsonTree,
    session_id: Seq<char>,
    project: Seq<char>,
    message_id: Seq<char>,
    raw_bytes: u64,
    time_created: i64,
    now: i64,
)
    requires
        message.text_at("role"@) == Some("user"@),
    ensures
        message_record(
            message,
            session_id,
            project,
            message_id,
            raw_bytes,
            time_created,
            now,
        ) is None,
{
    reveal_strlit("user");
    reveal_strlit("assistant");
    assert("user"@.len() != "assistant"@.len());
}

/// The amount that a member gives: its number, cut off at the decimal point, and zero where it is
/// negative, no number or missing.
pub open spec fn amount(given: Option<JsonTree>) -> int {
    match given {
        Some(JsonTree::Number { exact: Some(n), .. }) => if n > 0 {
            n as int
        } else {
            0
        },
        Some(JsonTree::Number { exact: None, truncated: Some(n) }) => if n > 0 {
            n as int
        } else {
            0
        },
        _ => 0,
    }
}

/// The member `inner` of the member `outer` of a document.
pub open spec fn nested(json: JsonTree, outer: Seq<char>, inner: Seq<char>) -> Option<JsonTree> {
    match json.get(outer) {
        Some(value) => value.get(inner),
        None => None,
    }
}

/// The member of `tokens.cache` of a message.
pub open spec fn cached(message: JsonTree, key: Seq<char>) -> Option<JsonTree> {
    match nested(message, "tokens"@, "cache"@) {
        Some(cache) => cache.get(key),
        None => None,
    }
}

/// Whether a message counts tokens of any kind.
pub open spec fn uses_tokens(message: JsonTree) -> bool {
    ||| amount(nested(message, "tokens"@, "input"@)) > 0
    ||| amount(nested(message, "tokens"@, "output"@)) > 0
    ||| amount(cached(message, "read"@)) > 0
    ||| amount(cached(message, "write"@)) > 0
}

/// Whether the role of a message is another than that of the assistant.
pub open spec fn has_other_role(message: JsonTree) -> bool {
    match message.get("role"@) {
        Some(JsonTree::Text(role)) => role != "assistant"@,
        _ => false,
    }
}

/// Whether the model is the one that a message names: in its member `modelID`, or else in that of
/// its member `model`. An empty name, or none, is an unknown model.
pub open spec fn is_model_of(model: Seq<char>, message: JsonTree) -> bool {
    match message.get("modelID"@) {
        Some(JsonTree::Text(name)) => model == if name.len() > 0 {
            name
        } else {
            "unknown"@
        },
        _ => match nested(message, "model"@, "modelID"@) {
            Some(JsonTree::Text(name)) => model == if name.len() > 0 {
                name
            } else {
                "unknown"@
            },
            _ => model == "unknown"@,
        },
    }
}

/// Whether a time is that of a message: its own creation, or else that of its row, or `now` where
/// the calendar does not reach it.
pub open spec fn is_start_of(time: i64, message: JsonTree, time_created: i64, now: i64) -> bool {
    let stamp = match nested(message, "time"@, "created"@) {
        Some(JsonTree::Number { exact: Some(created), .. }) => created,
        _ => time_created,
    };
    if -8_334_601_228_800_000 <= stamp <= 8_210_266_876_799_999 {
        time == stamp
    } else {
        time == now
    }
}

/// A message has a record exactly where its role does not speak against it and it counts tokens.
/// The record has the four counters of the message, each by its own member alone: the cache
/// counters are no part of the input, and do not change it.
pub proof fn counters_are_taken_one_to_one(
    message: JsonTree,
    session_id: Seq<char>,
    project: Seq<char>,
    message_id: Seq<char>,
    raw_bytes: u64,
    time_created: i64,
    now: i64,
)
    ensures
        match message_record(
            message,
            session_id,
            project,
            message_id,
            raw_bytes,
            time_created,
            now,
        ) {
            Some(r) => {
                &&& !has_other_role(message)
                &&& uses_tokens(message)
                &&& r.input_tokens == amount(nested(message, "tokens"@, "input"@))
                &&& r.output_tokens == amount(nested(message, "tokens"@, "output"@))
                &&& r.cache_read_tokens == amount(cached(message, "read"@))
                &&& r.cache_write_tokens == amount(cached(message, "write"@))
                &&& r.cost_micros == 0
                &&& r.provider == Provider::CodeArts
                &&& r.session_id == session_id
                &&& r.project == project
                &&& r.raw_bytes == raw_bytes
                &&& r.fingerprint == "message:"@ + message_id
                &&& is_model_of(r.model, message)
                &&& is_start_of(r.started_at, message, time_created, now)
            },
            None => has_other_role(message) || !uses_tokens(message),
        },
{
}

/// The cache counters do not touch the input: two messages that agree in a counter agree in it in
/// their records, however the others differ.
pub proof fn counters_do_not_touch_each_other(
    a: JsonTree,
    b: JsonTree,
    session_id: Seq<char>,
    project: Seq<char>,
    message_id: Seq<char>,
    raw_bytes: u64,
    time_created: i64,
    now: i64,
)
    requires
        nested(a, "tokens"@, "input"@) == nested(b, "tokens"@, "input"@),
    ensures
        match (
            message_record(a, session_id, project, message_id, raw_bytes, time_created, now),
            message_record(b, session_id, project, message_id, raw_bytes, time_created, now),
        ) {
            (Some(x), Some(y)) => x.input_tokens == y.input_tokens,
            _ => true,
        },
{
    counters_are_taken_one_to_one(
        a,
        session_id,
        project,
        message_id,
        raw_bytes,
        time_created,
        now,
    );
    counters_are_taken_one_to_one(
        b,
        session_id,
        project,
        message_id,
        raw_bytes,
        time_created,
        now,
    );
}

/// The project of a directory is its last component, where it has one that is not empty; else, and
/// for a blank directory, it is not known.
pub proof fn directories_give_the_project(directory: Seq<char>, name: Seq<char>)
    ensures
        !is_blank(directory) && name.len() > 0 ==> directory_project(directory, Some(name)) == name,
        is_blank(directory) || name.len() == 0 ==> directory_project(directory, Some(name))
            == "unknown"@,
        directory_project(directory, None) == "unknown"@,
{
}

/// A text that holds no document has no record; one that does has the record of the document.
pub proof fn only_documents_have_records(
    message: JsonTree,
    error: Seq<char>,
    session_id: Seq<char>,
    project: Seq<char>,
    message_id: Seq<char>,
    raw_bytes: u64,
    time_created: i64,
    now: i64,
)
    ensures
        parsed_record(
            Err(error),
            session_id,
            project,
            message_id,
            raw_bytes,
            time_created,
            now,
        ) is None,
        parsed_record(
            Ok(message),
            session_id,
            project,
            message_id,
            raw_bytes,
            time_created,
            now,
        ) == message_record(
            message,
            session_id,
            project,
            message_id,
            raw_bytes,
            time_created,
            now,
        ),
{
}

/// The places of the rows whose text is a document that counts tokens, with a role that does not
/// speak against it.
pub open spec fn counting_rows(rows: Seq<MessageRow>) -> Set<int> {
    Set::new(
        |i: int|
            0 <= i < rows.len() && match json_of_text(rows[i].data@) {
                Ok(message) => !has_other_role(message) && uses_tokens(message),
                Err(_) => false,
            },
    )
}

/// Whether a record tells of a row, whose directory ends in `name`.
pub open spec fn tells_of_row(
    r: RecordView,
    row: MessageRow,
    name: Option<Seq<char>>,
    now: i64,
) -> bool {
    match json_of_text(row.data@) {
        Ok(message) => {
            &&& r.input_tokens == amount(nested(message, "tokens"@, "input"@))
            &&& r.output_tokens == amount(nested(message, "tokens"@, "output"@))
            &&& r.cache_read_tokens == amount(cached(message, "read"@))
            &&& r.cache_write_tokens == amount(cached(message, "write"@))
            &&& r.cost_micros == 0
            &&& r.provider == Provider::CodeArts
            &&& r.session_id == row.session_id@
            &&& r.project == (match name {
                Some(name) => if is_blank(row.directory@) || name.len() == 0 {
                    "unknown"@
                } else {
                    name
                },
                None => "unknown"@,
            })
            &&& r.raw_bytes == byte_len(row.data@)
            &&& r.fingerprint == "message:"@ + row.message_id@
            &&& is_model_of(r.model, message)
            &&& is_start_of(r.started_at, message, row.time_created, now)
        },
        Err(_) => false,
    }
}

proof fn lemma_row_record(row: MessageRow, name: Option<Seq<char>>, now: i64)
    ensures
        match row_record(row, name, now) {
            Some(r) => tells_of_row(r, row, name, now),
            None => true,
        },
        row_record(row, name, now) is Some <==> (json_of_text(row.data@) matches Ok(message)
            && !has_other_role(message) && uses_tokens(message)),
{
    if let Ok(message) = json_of_text(row.data@) {
        counters_are_taken_one_to_one(
            message,
            row.session_id@,
            directory_project(row.directory@, name),
            row.message_id@,
            byte_len(row.data@),
            row.time_created,
            now,
        );
    }
}

/// Every row that counts tokens has its record, and no other row has any: it stands behind the
/// records of the rows before it.
pub proof fn every_counting_row_has_its_record(
    rows: Seq<MessageRow>,
    names: Seq<Option<Seq<char>>>,
    nows: Seq<i64>,
)
    requires
        names.len() == rows.len(),
        nows.len() == rows.len(),
    ensures
        rows_records(rows, names, nows).len() == rank(counting_rows(rows), rows.len() as int),
        forall|i: int|
            0 <= i < rows.len() && #[trigger] counting_rows(rows).contains(i) ==> tells_of_row(
                rows_records(rows, names, nows)[rank(counting_rows(rows), i) as int],
                rows[i],
                names[i],
                nows[i],
            ),
{
    lemma_row_places(rows, names, nows, counting_rows(rows));
}

proof fn lemma_row_places(
    rows: Seq<MessageRow>,
    names: Seq<Option<Seq<char>>>,
    nows: Seq<i64>,
    chosen: Set<int>,
)
    requires
        names.len() == rows.len(),
        nows.len() == rows.len(),
        forall|i: int|
            0 <= i < rows.len() ==> (#[trigger] chosen.contains(i) == counting_rows(
                rows,
            ).contains(i)),
    ensures
        rows_records(rows, names, nows).len() == rank(chosen, rows.len() as int),
        forall|i: int|
            0 <= i < rows.len() && #[trigger] chosen.contains(i) ==> tells_of_row(
                rows_records(rows, names, nows)[rank(chosen, i) as int],
                rows[i],
                names[i],
                nows[i],
            ),
    decreases rows.len(),
{
    if rows.len() > 0 {
        let front = rows.drop_last();
        let last = rows.len() - 1;
        assert forall|i: int| 0 <= i < front.len() implies (#[trigger] chosen.contains(i)
            == counting_rows(front).contains(i)) by {
            assert(front[i] == rows[i]);
            assert(counting_rows(rows).contains(i) == counting_rows(front).contains(i));
        }
        lemma_row_places(front, names.drop_last(), nows.drop_last(), chosen);
        lemma_row_record(rows.last(), names.last(), nows.last());
        assert(chosen.contains(last) == counting_rows(rows).contains(last));
        assert forall|i: int| 0 <= i < rows.len() && #[trigger] chosen.contains(i) implies tells_of_row(
            rows_records(rows, names, nows)[rank(chosen, i) as int],
            rows[i],
            names[i],
            nows[i],
        ) by {
            if i < last {
                lemma_rank_below(chosen, i, last);
                assert(front[i] == rows[i]);
            }
        }
    }
}

/// An optional record has a value exactly where there is a record, and it is the record's.
pub proof fn optional_value_is_the_records(r: UsageRecord)
    ensures
        opt_record(Some(r)) == Some(r@),
        opt_record(None) == None::<RecordView>,
{
}

/// A record that is read from a message has its four counters, each by its own member, its model
/// and its start; there is one exactly where the message counts tokens and is not of another role.
pub proof fn records_are_read_from_messages(
    message: Json,
    session_id: &str,
    project: &str,
    message_id: &str,
    raw_bytes: u64,
    time_created: i64,
    now: i64,
    r: Option<UsageRecord>,
)
    requires
        call_ensures(
            record_of_message,
            (&message, session_id, project, message_id, raw_bytes, time_created, now),
            r,
        ),
    ensures
        r is Some <==> !has_other_role(message@) && uses_tokens(message@),
        r matches Some(record) ==> {
            &&& record.usage.input_tokens == amount(nested(message@, "tokens"@, "input"@))
            &&& record.usage.output_tokens == amount(nested(message@, "tokens"@, "output"@))
            &&& record.usage.cache_read_tokens == amount(cached(message@, "read"@))
            &&& record.usage.cache_write_tokens == amount(cached(message@, "write"@))
            &&& record.usage.cost_micros == 0
            &&& record.provider == Provider::CodeArts
            &&& record.session_id@ == session_id@
            &&& record.project@ == project@
            &&& record.raw_bytes == raw_bytes
            &&& record.fingerprint@ == "message:"@ + message_id@
            &&& is_model_of(record.usage.model@, message@)
            &&& is_start_of(record.usage.started_at, message@, time_created, now)
        },
{
    counters_are_taken_one_to_one(
        message@,
        session_id@,
        project@,
        message_id@,
        raw_bytes,
        time_created,
        now,
    );
}

/// The time is asked for exactly where a message has a record and the calendar does not reach its
/// stamp.
pub proof fn time_is_asked_for_where_a_stamp_is_out_of_reach(
    message: JsonTree,
    time_created: i64,
)
    ensures
        ({
            let stamp = match nested(message, "time"@, "created"@) {
                Some(JsonTree::Number { exact: Some(created), .. }) => created,
                _ => time_created,
            };
            message_asks_time(message, time_created) <==> !has_other_role(message) && uses_tokens(
                message,
            ) && (stamp < -8_334_601_228_800_000 || stamp > 8_210_266_876_799_999)
        }),
{
}

} // verus!
