//! The model of a session in the aggregate format, which only its system prompt names.

use vstd::prelude::*;
use vstd::string::*;
use crate::json::{lemma_trees, trees, Json, JsonTree};
use crate::text::{
    chars_of, find, find_from, find_in, first_word, first_word_of, is_white, leading_word,
    occurs_at, search_finds_the_first_place, trim_start,
};

verus! {

/// The model that a prompt names in "running the <model> model": the first word behind the
/// first "running the ", up to the next " model" where there is one.
pub open spec fn prompt_model(text: Seq<char>) -> Option<Seq<char>> {
    match find(text, "running the "@) {
        Some(i) => {
            let rest = text.skip(i + "running the "@.len());
            match find(rest, " model"@) {
                Some(end) => first_word(rest.take(end)),
                None => first_word(rest),
            }
        },
        None => None,
    }
}

/// The text of a message by the system, plain or under `Text`.
pub open spec fn system_text(message: JsonTree) -> Option<Seq<char>> {
    if message.text_at("role"@) == Some("System"@) {
        match message.get("content"@) {
            Some(content) => match content.text() {
                Some(text) => Some(text),
                None => content.text_at("Text"@),
            },
            None => None,
        }
    } else {
        None
    }
}

/// The model that one message names.
pub open spec fn message_model(message: JsonTree) -> Option<Seq<char>> {
    match system_text(message) {
        Some(text) => prompt_model(text),
        None => None,
    }
}

/// The first model that a message of the system names.
pub open spec fn messages_model(messages: Seq<JsonTree>) -> Option<Seq<char>>
    decreases messages.len(),
{
    if messages.len() == 0 {
        None
    } else {
        match message_model(messages[0]) {
            Some(model) => Some(model),
            None => messages_model(messages.drop_first()),
        }
    }
}

/// The model that a prompt names in "running the <model> model".
pub fn extract_model_from_prompt(text: &str) -> (r: Option<String>)
    ensures
        match r {
            Some(model) => prompt_model(text@) == Some(model@),
            None => prompt_model(text@) is None,
        },
{
    let chars = chars_of(text);
    let needle = chars_of("running the ");
    let tail = chars_of(" model");
    let n: usize = chars.len();
    match find_in(&chars, &needle, 0) {
        Some(i) => {
            assert(i + needle@.len() <= n);
            let start: usize = i + needle.len();
            let rest: &str = text.substring_char(start, n);
            assert(rest@ =~= text@.skip(start as int));
            let rest_chars = chars_of(rest);
            match find_in(&rest_chars, &tail, 0) {
                Some(end) => {
                    let named: &str = rest.substring_char(0, end);
                    assert(named@ =~= rest@.take(end as int));
                    first_word_of(named)
                },
                None => first_word_of(rest),
            }
        },
        None => None,
    }
}

/// The text of a message by the system.
fn system_text_of(message: &Json) -> (r: Option<&str>)
    ensures
        match r {
            Some(text) => system_text(message@) == Some(text@),
            None => system_text(message@) is None,
        },
{
    let role: &str = match message.text_at("role") {
        Some(role) => role,
        None => return None,
    };
    if role.to_owned() != "System".to_owned() {
        return None;
    }
    let content: &Json = match message.get("content") {
        Some(content) => content,
        None => return None,
    };
    match content.as_str() {
        Some(text) => Some(text),
        None => content.text_at("Text"),
    }
}

/// The first model that a message of the system names; nothing without messages.
pub fn extract_model_from_messages(messages: Option<&Vec<Json>>) -> (r: Option<String>)
    ensures
        match r {
            Some(model) => messages matches Some(m) && messages_model(trees(m@)) == Some(model@),
            None => messages matches Some(m) ==> messages_model(trees(m@)) is None,
        },
{
    let list: &Vec<Json> = match messages {
        Some(list) => list,
        None => return None,
    };
    let ghost all = trees(list@);
    proof {
        lemma_trees(list@);
        assert(all.skip(0) =~= all);
    }
    let mut i: usize = 0;
    while i < list.len()
        invariant
            i <= list@.len() == all.len(),
            messages == Some(list),
            all == trees(list@),
            forall|j: int| 0 <= j < all.len() ==> #[trigger] all[j] == list@[j]@,
            messages_model(all) == messages_model(all.skip(i as int)),
        decreases list@.len() - i,
    {
        assert(all.skip(i as int).drop_first() =~= all.skip(i + 1));
        assert(all.skip(i as int)[0] == all[i as int]);
        if let Some(text) = system_text_of(&list[i]) {
            if let Some(model) = extract_model_from_prompt(text) {
                return Some(model);
            }
        }
        i += 1;
    }
    None
}

/// Whether a text is one word.
pub open spec fn one_word(s: Seq<char>) -> bool {
    s.len() > 0 && forall|i: int| 0 <= i < s.len() ==> !is_white(#[trigger] s[i])
}

proof fn lemma_find_from(s: Seq<char>, needle: Seq<char>, from: int, at: int)
    requires
        0 <= from <= at,
        occurs_at(s, needle, at),
        forall|i: int| from <= i < at ==> !#[trigger] occurs_at(s, needle, i),
    ensures
        find_from(s, needle, from) == Some(at),
    decreases at - from,
{
    if from < at {
        lemma_find_from(s, needle, from + 1, at);
    }
}

proof fn lemma_leading_word(s: Seq<char>)
    requires
        one_word(s),
    ensures
        leading_word(s) == s,
    decreases s.len(),
{
    let rest = s.drop_first();
    assert forall|i: int| 0 <= i < rest.len() implies !is_white(#[trigger] rest[i]) by {
        assert(rest[i] == s[i + 1]);
    }
    if rest.len() > 0 {
        lemma_leading_word(rest);
    } else {
        assert(leading_word(rest) =~= rest);
    }
    assert(seq![s[0]] + rest =~= s);
}

/// A prompt that names its model in "running the <model> model" gives that model, whatever
/// stands around it, as long as no earlier "running the " does.
pub proof fn prompt_names_its_model(before: Seq<char>, model: Seq<char>, after: Seq<char>)
    requires
        one_word(model),
        forall|i: int|
            0 <= i < before.len() ==> !#[trigger] occurs_at(
                before + "running the "@ + model + " model"@ + after,
                "running the "@,
                i,
            ),
    ensures
        prompt_model(before + "running the "@ + model + " model"@ + after) == Some(model),
{
    let needle = "running the "@;
    let tail = " model"@;
    let text = before + needle + model + tail + after;
    let at = before.len() as int;
    assert(text.subrange(at, at + needle.len()) =~= needle);
    lemma_find_from(text, needle, 0, at);
    let rest = text.skip(at + needle.len());
    assert(rest =~= model + tail + after);
    let end = model.len() as int;
    assert(rest.subrange(end, end + tail.len()) =~= tail);
    reveal_strlit(" model");
    assert forall|i: int| 0 <= i < end implies !#[trigger] occurs_at(rest, tail, i) by {
        if occurs_at(rest, tail, i) {
            assert(rest.subrange(i, i + tail.len())[0] == rest[i]);
            assert(rest[i] == model[i]);
            assert(is_white(' '));
        }
    }
    lemma_find_from(rest, tail, 0, end);
    assert(rest.take(end) =~= model);
    assert(!is_white(model[0]));
    assert(trim_start(model) == model);
    lemma_leading_word(model);
}

/// A prompt without "running the " names no model. Behind the first one, the model is the first
/// word before the next " model", or the first word at all where there is none.
pub proof fn model_stands_behind_the_phrase(text: Seq<char>, at: int)
    requires
        0 <= at <= text.len(),
        at < text.len() ==> occurs_at(text, "running the "@, at),
        forall|i: int| 0 <= i < at ==> !#[trigger] occurs_at(text, "running the "@, i),
    ensures
        at == text.len() ==> prompt_model(text) is None,
        at < text.len() ==> ({
            let rest = text.skip(at + 12);
            &&& forall|end: int|
                #![trigger occurs_at(rest, " model"@, end)]
                occurs_at(rest, " model"@, end) && (forall|i: int|
                    0 <= i < end ==> !#[trigger] occurs_at(rest, " model"@, i)) ==> prompt_model(
                    text,
                ) == first_word(rest.take(end))
            &&& (forall|i: int| 0 <= i ==> !#[trigger] occurs_at(rest, " model"@, i))
                ==> prompt_model(text) == first_word(rest)
        }),
{
    reveal_strlit("running the ");
    search_finds_the_first_place(text, "running the "@, 0);
    if at < text.len() {
        lemma_find_from(text, "running the "@, 0, at);
        let rest = text.skip(at + 12);
        search_finds_the_first_place(rest, " model"@, 0);
    }
}

/// The text of a message of the system is its content, plain or under `Text`; no other message has
/// one.
pub proof fn only_the_system_has_a_prompt(message: JsonTree)
    ensures
        message.get("role"@) != Some(JsonTree::Text("System"@)) ==> system_text(message) is None,
        message.get("role"@) == Some(JsonTree::Text("System"@)) ==> (match message.get(
            "content"@,
        ) {
            Some(JsonTree::Text(text)) => system_text(message) == Some(text),
            Some(content) => match content.get("Text"@) {
                Some(JsonTree::Text(text)) => system_text(message) == Some(text),
                _ => system_text(message) is None,
            },
            None => system_text(message) is None,
        }),
        system_text(message) is None ==> message_model(message) is None,
        system_text(message) matches Some(text) ==> message_model(message) == prompt_model(text),
{
}

/// The model of a run of messages is the one that the first message to name any names.
pub proof fn first_message_to_name_a_model_wins(messages: Seq<JsonTree>, i: int)
    requires
        0 <= i <= messages.len(),
        forall|j: int| 0 <= j < i ==> message_model(#[trigger] messages[j]) is None,
        i < messages.len() ==> message_model(messages[i]) is Some,
    ensures
        i < messages.len() ==> messages_model(messages) == message_model(messages[i]),
        i == messages.len() ==> messages_model(messages) is None,
    decreases i,
{
    if i > 0 {
        let rest = messages.drop_first();
        assert forall|j: int| 0 <= j < i - 1 implies message_model(#[trigger] rest[j]) is None by {
            assert(rest[j] == messages[j + 1]);
        }
        assert(message_model(messages[0]) is None);
        first_message_to_name_a_model_wins(rest, i - 1);
    }
}

} // verus!
