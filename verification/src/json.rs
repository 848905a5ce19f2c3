//! JSON values as plain data, and the two lookups that the tools make in them.
use vstd::prelude::*;

use crate::text::same_text;

verus! {

/// A JSON value. The members of an object are in no particular order; where two had the same key,
/// the first would count.
#[derive(Debug)]
pub enum Json {
    Null,
    Bool(bool),
    /// A number, in the notation of JSON.
    Number(String),
    Text(String),
    List(Vec<Json>),
    Object(Vec<(String, Json)>),
}

/// What a JSON value says.
pub enum JsonTree {
    Null,
    Bool(bool),
    Number(Seq<char>),
    Text(Seq<char>),
    List(Seq<JsonTree>),
    Object(Seq<(Seq<char>, JsonTree)>),
}

/// What the value says.
pub open spec fn tree(json: Json) -> JsonTree
    decreases json,
{
    match json {
        Json::Null => JsonTree::Null,
        Json::Bool(b) => JsonTree::Bool(b),
        Json::Number(n) => JsonTree::Number(n@),
        Json::Text(t) => JsonTree::Text(t@),
        Json::List(items) => JsonTree::List(
            Seq::new(
                items@.len(),
                |i: int|
                    if 0 <= i < items@.len() {
                        tree(items@[i])
                    } else {
                        JsonTree::Null
                    },
            ),
        ),
        Json::Object(members) => JsonTree::Object(
            Seq::new(
                members@.len(),
                |i: int|
                    if 0 <= i < members@.len() {
                        (members@[i].0@, tree(members@[i].1))
                    } else {
                        (seq![], JsonTree::Null)
                    },
            ),
        ),
    }
}

/// The value of the first member with this key, or `Null`.
pub open spec fn member(members: Seq<(Seq<char>, JsonTree)>, key: Seq<char>) -> JsonTree
    decreases members.len(),
{
    if members.len() == 0 {
        JsonTree::Null
    } else if members[0].0 == key {
        members[0].1
    } else {
        member(members.skip(1), key)
    }
}

/// The member of an object under this key. It is `Null` where there is none and where the value is
/// no object.
pub open spec fn field(json: JsonTree, key: Seq<char>) -> JsonTree {
    match json {
        JsonTree::Object(members) => member(members, key),
        _ => JsonTree::Null,
    }
}

/// The text, where the value is one.
pub open spec fn as_text(json: JsonTree) -> Option<Seq<char>> {
    match json {
        JsonTree::Text(text) => Some(text),
        _ => None,
    }
}

/// The items, where the value is a list.
pub open spec fn as_list(json: JsonTree) -> Option<Seq<JsonTree>> {
    match json {
        JsonTree::List(items) => Some(items),
        _ => None,
    }
}

/// What each of the values says.
pub open spec fn trees(items: Seq<Json>) -> Seq<JsonTree> {
    items.map_values(|item: Json| tree(item))
}

impl Json {
    /// The member under this key (see [`field`]), if the object has one.
    pub fn get(&self, key: &str) -> (value: Option<&Json>)
        ensures
            match value {
                Some(json) => tree(*json) == field(tree(*self), key@),
                None => field(tree(*self), key@) == JsonTree::Null,
            },
    {
        match self {
            Json::Object(members) => {
                let ghost all = tree(*self)->Object_0;
                let mut i: usize = 0;
                assert(all.skip(0) == all);
                while i < members.len()
                    invariant
                        *self == Json::Object(*members),
                        tree(*self) == JsonTree::Object(all),
                        all.len() == members.len(),
                        i <= members.len(),
                        member(all.skip(i as int), key@) == member(all, key@),
                    decreases members.len() - i,
                {
                    assert(all[i as int] == (members@[i as int].0@, tree(members@[i as int].1)));
                    if same_text(members[i].0.as_str(), key) {
                        return Some(&members[i].1);
                    }
                    assert(all.skip(i as int).skip(1) == all.skip(i + 1));
                    i = i + 1;
                }
                None
            },
            _ => None,
        }
    }

    /// The text under this key, if there is one.
    pub fn text_at(&self, key: &str) -> (text: Option<&str>)
        ensures
            match text {
                Some(t) => as_text(field(tree(*self), key@)) == Some(t@),
                None => as_text(field(tree(*self), key@)) is None,
            },
    {
        match self.get(key) {
            Some(value) => match value {
                Json::Text(t) => Some(t.as_str()),
                _ => None,
            },
            None => None,
        }
    }

    /// The list under this key, if there is one.
    pub fn list_at(&self, key: &str) -> (items: Option<&Vec<Json>>)
        ensures
            match items {
                Some(l) => as_list(field(tree(*self), key@)) == Some(trees(l@)),
                None => as_list(field(tree(*self), key@)) is None,
            },
    {
        match self.get(key) {
            Some(value) => match value {
                Json::List(items) => {
                    assert(tree(*value)->List_0 =~= trees(items@));
                    Some(items)
                },
                _ => None,
            },
            None => None,
        }
    }
}

// ---- From bytes ----

/// `serde_json::Value`, a JSON value as `serde_json` holds it. Verus sees nothing inside it; what
/// it holds goes by the name [`json_contents`].
#[verifier::external_type_specification]
#[verifier::external_body]
pub struct ExValue(serde_json::Value);

/// What a `serde_json::Value` holds.
pub uninterp spec fn json_contents(value: serde_json::Value) -> JsonTree;

/// What `serde_json::from_slice` reads from the bytes of a JSON text, or what it says is wrong with
/// them.
pub uninterp spec fn parsed_json(bytes: Seq<u8>) -> Result<JsonTree, Seq<char>>;

/// Calls `serde_json::from_slice` for a `serde_json::Value`, and turns its error into the words
/// that the error's `to_string` gives. Whether it succeeds, what the value holds, and what the
/// words are, depends on the bytes alone.
#[verifier::external_body]
fn value_from_slice(bytes: &[u8]) -> (value: Result<serde_json::Value, String>)
    ensures
        match value {
            Ok(v) => parsed_json(bytes@) == Ok::<JsonTree, Seq<char>>(json_contents(v)),
            Err(words) => parsed_json(bytes@) == Err::<JsonTree, Seq<char>>(words@),
        },
{
    serde_json::from_slice(bytes).map_err(|e: serde_json::Error| e.to_string())
}

/// A `serde_json::Value` taken apart, one level deep.
enum Opened {
    Null,
    Bool(bool),
    Number(String),
    Text(String),
    List(Vec<serde_json::Value>),
    Object(Vec<(String, serde_json::Value)>),
}

/// What the values hold.
spec fn all_contents(items: Seq<serde_json::Value>) -> Seq<JsonTree> {
    items.map_values(|item: serde_json::Value| json_contents(item))
}

/// What the entries hold.
spec fn entry_contents(entries: Seq<(String, serde_json::Value)>) -> Seq<(Seq<char>, JsonTree)> {
    entries.map_values(|e: (String, serde_json::Value)| (e.0@, json_contents(e.1)))
}

/// What a value holds, from its parts.
spec fn opened_tree(opened: Opened) -> JsonTree {
    match opened {
        Opened::Null => JsonTree::Null,
        Opened::Bool(b) => JsonTree::Bool(b),
        Opened::Number(n) => JsonTree::Number(n@),
        Opened::Text(t) => JsonTree::Text(t@),
        Opened::List(items) => JsonTree::List(all_contents(items@)),
        Opened::Object(entries) => JsonTree::Object(entry_contents(entries@)),
    }
}

/// Takes a `serde_json::Value` apart by its variant: a number in the notation that its `to_string`
/// gives, the items of an array in order, the entries of an object in the order in which
/// `serde_json::Map` hands them out. What the value holds is what these parts hold.
#[verifier::external_body]
fn open_value(value: serde_json::Value) -> (opened: Opened)
    ensures
        json_contents(value) == opened_tree(opened),
{
    match value {
        serde_json::Value::Null => Opened::Null,
        serde_json::Value::Bool(b) => Opened::Bool(b),
        serde_json::Value::Number(n) => Opened::Number(n.to_string()),
        serde_json::Value::String(s) => Opened::Text(s),
        serde_json::Value::Array(items) => Opened::List(items),
        serde_json::Value::Object(map) => Opened::Object(map.into_iter().collect()),
    }
}

/// What the members say.
pub open spec fn said(members: Seq<(String, Json)>) -> Seq<(Seq<char>, JsonTree)> {
    members.map_values(|m: (String, Json)| (m.0@, tree(m.1)))
}

impl Json {
    /// The value that a `serde_json::Value` holds.
    pub fn from_value(value: serde_json::Value) -> (json: Json)
        ensures
            tree(json) == json_contents(value),
        decreases json_contents(value),
    {
        match open_value(value) {
            Opened::Null => Json::Null,
            Opened::Bool(b) => Json::Bool(b),
            Opened::Number(n) => Json::Number(n),
            Opened::Text(t) => Json::Text(t),
            Opened::List(items) => {
                let mut list: Vec<Json> = Vec::new();
                for item in it: items
                    invariant
                        it.seq() == items@,
                        json_contents(value) == JsonTree::List(all_contents(items@)),
                        trees(list@) == all_contents(items@).take(it.index()),
                        it.index() == items@.len() ==> trees(list@) == all_contents(items@),
                {
                    let ghost all = all_contents(items@);
                    assert(all[it.index()] == json_contents(item));
                    assert(decreases_to!(json_contents(value) => json_contents(value)->List_0));
                    assert(decreases_to!(all => all[it.index()]));
                    let ghost before = list@;
                    let json = Json::from_value(item);
                    list.push(json);
                    assert(trees(list@) =~= trees(before).push(tree(json)));
                }
                let json = Json::List(list);
                assert(tree(json)->List_0 =~= trees(list@));
                json
            },
            Opened::Object(entries) => {
                let mut members: Vec<(String, Json)> = Vec::new();
                for entry in it: entries
                    invariant
                        it.seq() == entries@,
                        json_contents(value) == JsonTree::Object(entry_contents(entries@)),
                        said(members@) == entry_contents(entries@).take(it.index()),
                        it.index() == entries@.len() ==> said(members@) == entry_contents(entries@),
                {
                    let ghost all = entry_contents(entries@);
                    assert(all[it.index()] == (entry.0@, json_contents(entry.1)));
                    assert(decreases_to!(json_contents(value) => json_contents(value)->Object_0));
                    assert(decreases_to!(all => all[it.index()]));
                    assert(decreases_to!(all[it.index()] => all[it.index()].1));
                    let ghost before = members@;
                    let json = Json::from_value(entry.1);
                    members.push((entry.0, json));
                    assert(said(members@) =~= said(before).push((entry.0@, tree(json))));
                }
                let json = Json::Object(members);
                assert(tree(json)->Object_0 =~= said(members@));
                json
            },
        }
    }

    /// The value that a JSON text spells, or what is wrong with the bytes.
    pub fn parse(bytes: &[u8]) -> (json: Result<Json, String>)
        ensures
            match json {
                Ok(j) => parsed_json(bytes@) == Ok::<JsonTree, Seq<char>>(tree(j)),
                Err(words) => parsed_json(bytes@) == Err::<JsonTree, Seq<char>>(words@),
            },
    {
        match value_from_slice(bytes) {
            Ok(value) => Ok(Json::from_value(value)),
            Err(words) => Err(words),
        }
    }
}

// ---- Laws ----

/// What is under a key of an object is the value of the first member with that key, whatever else
/// there is.
pub proof fn law_field_is_the_first_member_with_the_key(
    members: Seq<(Seq<char>, JsonTree)>,
    key: Seq<char>,
    i: int,
)
    requires
        0 <= i < members.len(),
        members[i].0 == key,
        forall|j: int| 0 <= j < i ==> (#[trigger] members[j]).0 != key,
    ensures
        field(JsonTree::Object(members), key) == members[i].1,
    decreases i,
{
    if i > 0 {
        let rest = members.skip(1);
        assert(members[0].0 != key);
        assert forall|j: int| 0 <= j < i - 1 implies (#[trigger] rest[j]).0 != key by {
            assert(rest[j] == members[j + 1]);
        }
        law_field_is_the_first_member_with_the_key(rest, key, i - 1);
    }
}

/// Under a key that no member has there is nothing, and nothing is under any key of what is no
/// object.
pub proof fn law_missing_field_is_null(
    json: JsonTree,
    members: Seq<(Seq<char>, JsonTree)>,
    key: Seq<char>,
)
    ensures
        !(json is Object) ==> field(json, key) == JsonTree::Null,
        (forall|i: int| 0 <= i < members.len() ==> (#[trigger] members[i]).0 != key) ==> field(
            JsonTree::Object(members),
            key,
        ) == JsonTree::Null,
    decreases members.len(),
{
    if members.len() > 0 && (forall|i: int|
        0 <= i < members.len() ==> (#[trigger] members[i]).0 != key) {
        let rest = members.skip(1);
        assert(members[0].0 != key);
        assert forall|j: int| 0 <= j < rest.len() implies (#[trigger] rest[j]).0 != key by {
            assert(rest[j] == members[j + 1]);
        }
        law_missing_field_is_null(json, rest, key);
    }
}

/// A value is read as a text or as a list exactly where it is one, and then as just that one.
pub proof fn law_values_are_read_as_what_they_are(
    json: JsonTree,
    text: Seq<char>,
    items: Seq<JsonTree>,
)
    ensures
        as_text(json) == Some(text) <==> json == JsonTree::Text(text),
        as_list(json) == Some(items) <==> json == JsonTree::List(items),
{
}

/// What a value says has the shape of the value and all of its parts, in their order.
pub proof fn law_tree_keeps_every_part(
    b: bool,
    text: String,
    items: Vec<Json>,
    members: Vec<(String, Json)>,
)
    ensures
        tree(Json::Null) == JsonTree::Null,
        tree(Json::Bool(b)) == JsonTree::Bool(b),
        tree(Json::Number(text)) == JsonTree::Number(text@),
        tree(Json::Text(text)) == JsonTree::Text(text@),
        tree(Json::List(items)) matches JsonTree::List(told) && told.len() == items@.len() && (
        forall|i: int| 0 <= i < items@.len() ==> #[trigger] told[i] == tree(items@[i])),
        tree(Json::Object(members)) matches JsonTree::Object(told) && told.len() == members@.len()
            && (forall|i: int|
            0 <= i < members@.len() ==> #[trigger] told[i] == (
                members@[i].0@,
                tree(members@[i].1),
            )),
        trees(items@).len() == items@.len(),
        forall|i: int| 0 <= i < items@.len() ==> #[trigger] trees(items@)[i] == tree(items@[i]),
        said(members@).len() == members@.len(),
        forall|i: int|
            0 <= i < members@.len() ==> #[trigger] said(members@)[i] == (
                members@[i].0@,
                tree(members@[i].1),
            ),
{
}

} // verus!
