//! JSON documents as plain values, and the one place where text becomes one.

use vstd::prelude::*;

verus! {

/// A parsed JSON document.
///
/// A number is held by the two readings that the adapters take of it: the exact `i64`, where
/// the number is an integer in range, and the value cut off at the decimal point, which
/// saturates at the ends of `i64`. The members of an object are held in order.
#[derive(Debug)]
pub enum Json {
    Null,
    Bool(bool),
    Number { exact: Option<i64>, truncated: Option<i64> },
    Text(String),
    Array(Vec<Json>),
    Object(Vec<(String, Json)>),
}

/// The mathematical value of a [`Json`].
#[verifier::ext_equal]
pub enum JsonTree {
    Null,
    Bool(bool),
    Number { exact: Option<i64>, truncated: Option<i64> },
    Text(Seq<char>),
    Array(Seq<JsonTree>),
    Object(Seq<(Seq<char>, JsonTree)>),
}

/// The tree that a document stands for.
pub open spec fn tree(json: Json) -> JsonTree
    decreases json,
{
    match json {
        Json::Null => JsonTree::Null,
        Json::Bool(b) => JsonTree::Bool(b),
        Json::Number { exact, truncated } => JsonTree::Number { exact, truncated },
        Json::Text(s) => JsonTree::Text(s@),
        Json::Array(items) => JsonTree::Array(trees(items@)),
        Json::Object(members) => JsonTree::Object(member_trees(members@)),
    }
}

/// The trees of a run of documents.
pub open spec fn trees(items: Seq<Json>) -> Seq<JsonTree>
    decreases items,
{
    if items.len() == 0 {
        seq![]
    } else {
        trees(items.drop_last()).push(tree(items.last()))
    }
}

/// The trees of a run of object members.
pub open spec fn member_trees(members: Seq<(String, Json)>) -> Seq<(Seq<char>, JsonTree)>
    decreases members,
{
    if members.len() == 0 {
        seq![]
    } else {
        member_trees(members.drop_last()).push((members.last().0@, tree(members.last().1)))
    }
}

impl View for Json {
    type V = JsonTree;

    open spec fn view(&self) -> JsonTree {
        tree(*self)
    }
}

/// The value of the first member with the name `key`.
pub open spec fn member(members: Seq<(Seq<char>, JsonTree)>, key: Seq<char>) -> Option<JsonTree>
    decreases members.len(),
{
    if members.len() == 0 {
        None
    } else if members[0].0 == key {
        Some(members[0].1)
    } else {
        member(members.drop_first(), key)
    }
}

impl JsonTree {
    /// The member `key` of an object; nothing of any other document.
    pub open spec fn get(self, key: Seq<char>) -> Option<JsonTree> {
        match self {
            JsonTree::Object(members) => member(members, key),
            _ => None,
        }
    }

    /// The text of a string.
    pub open spec fn text(self) -> Option<Seq<char>> {
        match self {
            JsonTree::Text(s) => Some(s),
            _ => None,
        }
    }

    /// The items of an array.
    pub open spec fn items(self) -> Option<Seq<JsonTree>> {
        match self {
            JsonTree::Array(items) => Some(items),
            _ => None,
        }
    }

    /// The value of an integer in the range of `i64`.
    pub open spec fn integer(self) -> Option<i64> {
        match self {
            JsonTree::Number { exact, .. } => exact,
            _ => None,
        }
    }

    /// The value of a number as an integer, cut off at the decimal point; zero of any other
    /// document.
    pub open spec fn truncated(self) -> i64 {
        match self {
            JsonTree::Number { exact: Some(n), .. } => n,
            JsonTree::Number { exact: None, truncated: Some(n) } => n,
            _ => 0,
        }
    }

    /// The text of the member `key`.
    pub open spec fn text_at(self, key: Seq<char>) -> Option<Seq<char>> {
        match self.get(key) {
            Some(json) => json.text(),
            None => None,
        }
    }

    /// The integer of the member `key`.
    pub open spec fn integer_at(self, key: Seq<char>) -> Option<i64> {
        match self.get(key) {
            Some(json) => json.integer(),
            None => None,
        }
    }

    /// The items of the member `key`.
    pub open spec fn items_at(self, key: Seq<char>) -> Option<Seq<JsonTree>> {
        match self.get(key) {
            Some(json) => json.items(),
            None => None,
        }
    }
}

/// The trees of documents, one by one.
pub proof fn lemma_trees(items: Seq<Json>)
    ensures
        trees(items).len() == items.len(),
        forall|i: int| 0 <= i < items.len() ==> #[trigger] trees(items)[i] == tree(items[i]),
    decreases items.len(),
{
    if items.len() > 0 {
        lemma_trees(items.drop_last());
    }
}

/// The trees of object members, one by one.
pub proof fn lemma_member_trees(members: Seq<(String, Json)>)
    ensures
        member_trees(members).len() == members.len(),
        forall|i: int|
            0 <= i < members.len() ==> #[trigger] member_trees(members)[i] == (
                members[i].0@,
                tree(members[i].1),
            ),
    decreases members.len(),
{
    if members.len() > 0 {
        lemma_member_trees(members.drop_last());
    }
}

impl Json {
    /// The member `key` of an object; nothing of any other document.
    pub fn get(&self, key: &str) -> (r: Option<&Json>)
        ensures
            match r {
                Some(json) => self@.get(key@) == Some(json@),
                None => self@.get(key@) is None,
            },
    {
        match self {
            Json::Object(members) => {
                let name: String = key.to_owned();
                let ghost all = member_trees(members@);
                proof {
                    lemma_member_trees(members@);
                    assert(all.skip(0) =~= all);
                }
                let mut i: usize = 0;
                while i < members.len()
                    invariant
                        i <= members@.len() == all.len(),
                        name@ == key@,
                        self@ == JsonTree::Object(all),
                        forall|j: int|
                            0 <= j < all.len() ==> #[trigger] all[j] == (
                                members@[j].0@,
                                tree(members@[j].1),
                            ),
                        member(all, key@) == member(all.skip(i as int), key@),
                    decreases members@.len() - i,
                {
                    assert(all.skip(i as int).drop_first() =~= all.skip(i + 1));
                    if members[i].0 == name {
                        assert(all[i as int].0 == key@);
                        return Some(&members[i].1);
                    }
                    i += 1;
                }
                None
            },
            _ => None,
        }
    }

    /// The text of a string.
    pub fn as_str(&self) -> (r: Option<&str>)
        ensures
            match r {
                Some(s) => self@.text() == Some(s@),
                None => self@.text() is None,
            },
    {
        match self {
            Json::Text(s) => Some(s.as_str()),
            _ => None,
        }
    }

    /// The items of an array.
    pub fn as_array(&self) -> (r: Option<&Vec<Json>>)
        ensures
            match r {
                Some(items) => self@.items() == Some(trees(items@)),
                None => self@.items() is None,
            },
    {
        match self {
            Json::Array(items) => Some(items),
            _ => None,
        }
    }

    /// The value of an integer in the range of `i64`.
    pub fn as_i64(&self) -> (r: Option<i64>)
        ensures
            r == self@.integer(),
    {
        match self {
            Json::Number { exact, .. } => *exact,
            _ => None,
        }
    }

    /// The value of a number as an integer, cut off at the decimal point; zero of any other
    /// document.
    pub fn as_truncated(&self) -> (r: i64)
        ensures
            r == self@.truncated(),
    {
        match self {
            Json::Number { exact, truncated } => match *exact {
                Some(n) => n,
                None => match *truncated {
                    Some(n) => n,
                    None => 0,
                },
            },
            _ => 0,
        }
    }

    /// Whether the document is an object.
    pub fn is_object(&self) -> (r: bool)
        ensures
            r == (self@ is Object),
    {
        match self {
            Json::Object(_) => true,
            _ => false,
        }
    }

    /// The text of the member `key`.
    pub fn text_at(&self, key: &str) -> (r: Option<&str>)
        ensures
            match r {
                Some(s) => self@.text_at(key@) == Some(s@),
                None => self@.text_at(key@) is None,
            },
    {
        match self.get(key) {
            Some(json) => json.as_str(),
            None => None,
        }
    }

    /// The integer of the member `key`.
    pub fn integer_at(&self, key: &str) -> (r: Option<i64>)
        ensures
            r == self@.integer_at(key@),
    {
        match self.get(key) {
            Some(json) => json.as_i64(),
            None => None,
        }
    }

    /// The items of the member `key`.
    pub fn items_at(&self, key: &str) -> (r: Option<&Vec<Json>>)
        ensures
            match r {
                Some(items) => self@.items_at(key@) == Some(trees(items@)),
                None => self@.items_at(key@) is None,
            },
    {
        match self.get(key) {
            Some(json) => json.as_array(),
            None => None,
        }
    }
}

/// A parsed value of `serde_json`, carried through unopened.
#[verifier::external_type_specification]
#[verifier::external_body]
pub struct ExValue(serde_json::Value);

/// A `serde_json::Value` opened by one level.
enum Layer {
    Null,
    Bool(bool),
    Number { exact: Option<i64>, truncated: Option<i64> },
    Text(String),
    Array(Vec<serde_json::Value>),
    Object(Vec<(String, serde_json::Value)>),
}

/// What `serde_json` makes of a text: the document it holds, or the message of the error.
pub uninterp spec fn json_of_text(text: Seq<char>) -> Result<JsonTree, Seq<char>>;

/// What a `serde_json::Value` holds.
pub uninterp spec fn value_tree(value: serde_json::Value) -> JsonTree;

/// What a run of `serde_json::Value`s holds.
spec fn value_trees(values: Seq<serde_json::Value>) -> Seq<JsonTree> {
    Seq::new(values.len(), |i: int| value_tree(values[i]))
}

/// What a run of members of a `serde_json` object holds.
spec fn value_member_trees(members: Seq<(String, serde_json::Value)>) -> Seq<
    (Seq<char>, JsonTree),
> {
    Seq::new(members.len(), |i: int| (members[i].0@, value_tree(members[i].1)))
}

/// What an opened value holds.
spec fn layer_tree(layer: Layer) -> JsonTree {
    match layer {
        Layer::Null => JsonTree::Null,
        Layer::Bool(b) => JsonTree::Bool(b),
        Layer::Number { exact, truncated } => JsonTree::Number { exact, truncated },
        Layer::Text(s) => JsonTree::Text(s@),
        Layer::Array(values) => JsonTree::Array(value_trees(values@)),
        Layer::Object(members) => JsonTree::Object(value_member_trees(members@)),
    }
}

/// Whether arrays and objects are nested at most `depth` deep.
pub open spec fn nested_within(json: JsonTree, depth: nat) -> bool
    decreases depth,
{
    match json {
        JsonTree::Array(items) => depth > 0 && forall|i: int|
            0 <= i < items.len() ==> nested_within(#[trigger] items[i], (depth - 1) as nat),
        JsonTree::Object(members) => depth > 0 && forall|i: int|
            0 <= i < members.len() ==> nested_within(
                (#[trigger] members[i]).1,
                (depth - 1) as nat,
            ),
        _ => true,
    }
}

/// The deepest nesting that `serde_json` reads before it gives up with an error.
const MAX_NESTING: u8 = 128;

/// `serde_json::from_str` into a `serde_json::Value`.
///
/// Trusted: the outcome, and the message where it is an error, depend on the text alone. The
/// parser refuses a document that is nested deeper than its recursion limit.
#[verifier::external_body]
fn parse_value(text: &str) -> (r: Result<serde_json::Value, String>)
    ensures
        match r {
            Ok(value) => json_of_text(text@) == Ok::<JsonTree, Seq<char>>(value_tree(value)),
            Err(message) => json_of_text(text@) == Err::<JsonTree, Seq<char>>(message@),
        },
        r matches Ok(value) ==> nested_within(value_tree(value), MAX_NESTING as nat),
{
    serde_json::from_str::<serde_json::Value>(text).map_err(|e| e.to_string())
}

/// The variants of `serde_json::Value`, told apart; `Number::as_i64` and `Number::as_f64` read
/// a number.
///
/// Trusted: the pieces hold what the value held.
#[verifier::external_body]
fn open_value(value: serde_json::Value) -> (r: Layer)
    ensures
        layer_tree(r) == value_tree(value),
{
    match value {
        serde_json::Value::Null => Layer::Null,
        serde_json::Value::Bool(b) => Layer::Bool(b),
        serde_json::Value::Number(n) => Layer::Number {
            exact: n.as_i64(),
            truncated: n.as_f64().map(|x| x as i64),
        },
        serde_json::Value::String(s) => Layer::Text(s),
        serde_json::Value::Array(a) => Layer::Array(a),
        serde_json::Value::Object(o) => Layer::Object(o.into_iter().collect()),
    }
}

/// Moves a `serde_json::Value` over into a [`Json`].
fn json_of_value(value: serde_json::Value, depth: u8) -> (r: Json)
    requires
        nested_within(value_tree(value), depth as nat),
    ensures
        r@ == value_tree(value),
    decreases depth,
{
    match open_value(value) {
        Layer::Null => Json::Null,
        Layer::Bool(b) => Json::Bool(b),
        Layer::Number { exact, truncated } => Json::Number { exact, truncated },
        Layer::Text(s) => Json::Text(s),
        Layer::Array(values) => {
            let mut items: Vec<Json> = Vec::new();
            let ghost all = values@;
            let ghost held = value_trees(all);
            assert(nested_within(JsonTree::Array(held), depth as nat));
            assert forall|i: int| 0 <= i < held.len() implies nested_within(
                #[trigger] held[i],
                (depth - 1) as nat,
            ) by {}
            for value in it: values
                invariant
                    depth > 0,
                    it.seq() == all,
                    forall|i: int|
                        0 <= i < all.len() ==> nested_within(
                            #[trigger] value_trees(all)[i],
                            (depth - 1) as nat,
                        ),
                    trees(items@) == value_trees(all.take(it.index() as int)),
            {
                assert(nested_within(value_trees(all)[it.index() as int], (depth - 1) as nat));
                let item = json_of_value(value, depth - 1);
                let ghost before = items@;
                items.push(item);
                assert(items@.drop_last() =~= before);
            }
            assert(all.take(all.len() as int) =~= all);
            Json::Array(items)
        },
        Layer::Object(members) => {
            let mut items: Vec<(String, Json)> = Vec::new();
            let ghost all = members@;
            assert(nested_within(JsonTree::Object(value_member_trees(all)), depth as nat));
            for member in it: members
                invariant
                    depth > 0,
                    it.seq() == all,
                    forall|i: int|
                        0 <= i < all.len() ==> nested_within(
                            (#[trigger] value_member_trees(all)[i]).1,
                            (depth - 1) as nat,
                        ),
                    member_trees(items@) == value_member_trees(all.take(it.index() as int)),
            {
                assert(nested_within(
                    value_member_trees(all)[it.index() as int].1,
                    (depth - 1) as nat,
                ));
                let (key, value) = member;
                let item = json_of_value(value, depth - 1);
                let ghost before = items@;
                items.push((key, item));
                assert(items@.drop_last() =~= before);
            }
            assert(all.take(all.len() as int) =~= all);
            Json::Object(items)
        },
    }
}

/// Reads a text as one JSON document. The error is the parser's message.
pub fn parse_json(text: &str) -> (r: Result<Json, String>)
    ensures
        match r {
            Ok(json) => json_of_text(text@) == Ok::<JsonTree, Seq<char>>(json@),
            Err(message) => json_of_text(text@) == Err::<JsonTree, Seq<char>>(message@),
        },
{
    match parse_value(text) {
        Ok(value) => Ok(json_of_value(value, MAX_NESTING)),
        Err(message) => Err(message),
    }
}

/// A document stands for what it holds: a number for its two readings, a string for its text, an
/// array for its items in order, an object for its members in order, each under its name.
pub proof fn documents_stand_for_what_they_hold(json: Json)
    ensures
        match json {
            Json::Null => json@ == JsonTree::Null,
            Json::Bool(b) => json@ == JsonTree::Bool(b),
            Json::Number { exact, truncated } => json@ == (JsonTree::Number { exact, truncated }),
            Json::Text(s) => json@ == JsonTree::Text(s@),
            Json::Array(items) => json@ matches JsonTree::Array(held) && held.len()
                == items@.len() && forall|i: int|
                0 <= i < held.len() ==> #[trigger] held[i] == items@[i]@,
            Json::Object(members) => json@ matches JsonTree::Object(held) && held.len()
                == members@.len() && forall|i: int|
                0 <= i < held.len() ==> #[trigger] held[i] == (members@[i].0@, members@[i].1@),
        },
{
    match json {
        Json::Array(items) => {
            lemma_trees(items@);
        },
        Json::Object(members) => {
            lemma_member_trees(members@);
        },
        _ => {},
    }
}

/// Of several members with one name the first is the one that is found; a name that no member has
/// is not found, nor is any outside of an object.
pub proof fn first_member_of_a_name_is_found(
    members: Seq<(Seq<char>, JsonTree)>,
    key: Seq<char>,
    i: int,
)
    requires
        0 <= i <= members.len(),
        forall|j: int| 0 <= j < i ==> (#[trigger] members[j]).0 != key,
        i < members.len() ==> members[i].0 == key,
    ensures
        i < members.len() ==> JsonTree::Object(members).get(key) == Some(members[i].1),
        i == members.len() ==> JsonTree::Object(members).get(key) is None,
        JsonTree::Null.get(key) is None,
        forall|items: Seq<JsonTree>| (#[trigger] JsonTree::Array(items).get(key)) is None,
        forall|s: Seq<char>| (#[trigger] JsonTree::Text(s).get(key)) is None,
        forall|b: bool| (#[trigger] JsonTree::Bool(b).get(key)) is None,
        forall|exact: Option<i64>, truncated: Option<i64>|
            (#[trigger] (JsonTree::Number { exact, truncated }).get(key)) is None,
    decreases i,
{
    if i > 0 {
        let rest = members.drop_first();
        assert forall|j: int| 0 <= j < i - 1 implies (#[trigger] rest[j]).0 != key by {
            assert(rest[j] == members[j + 1]);
        }
        assert(members[0].0 != key);
        first_member_of_a_name_is_found(rest, key, i - 1);
    }
}

/// Each kind of document is read as what it is, and as nothing else.
pub proof fn documents_are_read_by_their_kind(json: JsonTree)
    ensures
        json.text() == (match json {
            JsonTree::Text(s) => Some(s),
            _ => None::<Seq<char>>,
        }),
        json.items() == (match json {
            JsonTree::Array(items) => Some(items),
            _ => None::<Seq<JsonTree>>,
        }),
        json matches JsonTree::Number { exact, .. } ==> json.integer() == exact,
        !(json is Number) ==> json.integer() is None && json.truncated() == 0,
        json matches JsonTree::Number { exact: Some(n), .. } ==> json.truncated() == n,
        json matches JsonTree::Number { exact: None, truncated: Some(n) } ==> json.truncated() == n,
        json matches JsonTree::Number { exact: None, truncated: None } ==> json.truncated() == 0,
{
}

/// What is read at a name is what the member of that name is read as.
pub proof fn members_are_read_at_their_names(json: JsonTree, key: Seq<char>)
    ensures
        match json.get(key) {
            Some(value) => {
                &&& json.text_at(key) == value.text()
                &&& json.integer_at(key) == value.integer()
                &&& json.items_at(key) == value.items()
            },
            None => {
                &&& json.text_at(key) is None
                &&& json.integer_at(key) is None
                &&& json.items_at(key) is None
            },
        },
{
}

} // verus!
