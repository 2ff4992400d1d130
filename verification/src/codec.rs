//! Documents as JSON text. Parsing and printing are `serde_json`'s; what is
//! verified here is the passage between its `Value` and [`ConfigDocument`].

use crate::document::{
    distinct_keys, doc_model, doc_wf, items_model, lemma_members_domain, lemma_members_lookup,
    members_model, ConfigDocument, JsonModel,
};
use serde_json::Value;
use vstd::prelude::*;

verus! {

/// `serde_json::Value`, opaque here: it is read through [`inspect`] and built
/// through [`assemble`].
#[verifier::external_type_specification]
#[verifier::external_body]
pub struct ExValue(serde_json::Value);

/// `serde_json::Error`, which nothing here looks into.
#[verifier::external_type_specification]
#[verifier::external_body]
pub struct ExError(serde_json::Error);

/// The JSON value that a `serde_json::Value` holds.
pub uninterp spec fn value_model(value: Value) -> JsonModel;

/// What `serde_json::from_str` makes of a text: the value that it reads, or
/// the message of the error that it reports.
pub uninterp spec fn parsed_json(text: Seq<char>) -> Result<JsonModel, Seq<char>>;

/// The text that `serde_json::to_string_pretty` writes for a value, `None`
/// where it reports an error.
pub uninterp spec fn pretty_json(doc: JsonModel) -> Option<Seq<char>>;

/// One level of a JSON value: its variant, with the values below it left as
/// `V`.
enum Shape<V> {
    Null,
    Bool(bool),
    Number(serde_json::Number),
    String(String),
    Array(Vec<V>),
    Object(Vec<(String, V)>),
}

/// `map` holds exactly the given members, whose keys are pairwise distinct.
spec fn is_map_of(
    map: Map<Seq<char>, JsonModel>,
    members: Seq<(Seq<char>, JsonModel)>,
) -> bool {
    &&& map.dom().finite()
    &&& forall|i: int, j: int|
        0 <= i < j < members.len() ==> (#[trigger] members[i]).0 != (#[trigger] members[j]).0
    &&& forall|i: int|
        0 <= i < members.len() ==> map.contains_key((#[trigger] members[i]).0) && map[members[i].0]
            == members[i].1
    &&& forall|key: Seq<char>| #[trigger]
        map.contains_key(key) ==> exists|i: int|
            0 <= i < members.len() && (#[trigger] members[i]).0 == key
}

/// The members of a borrowed object shape, as keys and models.
spec fn borrowed_members(members: Seq<(String, &Value)>) -> Seq<(Seq<char>, JsonModel)> {
    members.map_values(|member: (String, &Value)| (member.0@, value_model(*member.1)))
}

/// The members of an owned object shape, as keys and models.
spec fn owned_members(members: Seq<(String, Value)>) -> Seq<(Seq<char>, JsonModel)> {
    members.map_values(|member: (String, Value)| (member.0@, value_model(member.1)))
}

/// Calls `serde_json::from_str` for a `Value` and hands an error on as its
/// message (its `Display`, which names what was expected, the line and the
/// column). The outcome depends on the text alone: [`parsed_json`] names it,
/// and a value that is returned holds what that name says.
#[verifier::external_body]
fn parse_value(text: &str) -> (parsed: Result<Value, String>)
    ensures
        match parsed {
            Ok(value) => parsed_json(text@) == Ok::<JsonModel, Seq<char>>(value_model(value)),
            Err(message) => parsed_json(text@) == Err::<JsonModel, Seq<char>>(message@),
        },
{
    match serde_json::from_str::<Value>(text) {
        Ok(value) => Ok(value),
        Err(error) => Err(error.to_string()),
    }
}

/// Calls `serde_json::to_string_pretty` on a `Value`. The text depends on what
/// the value holds alone: [`pretty_json`] names it.
#[verifier::external_body]
fn print_value(value: &Value) -> (printed: Result<String, serde_json::Error>)
    ensures
        match printed {
            Ok(text) => pretty_json(value_model(*value)) == Some(text@),
            Err(_) => pretty_json(value_model(*value)) is None,
        },
{
    serde_json::to_string_pretty(value)
}

/// Tells the variants of `serde_json::Value` apart and hands out what the value
/// holds one level down: scalars are copied, the elements of an array and the
/// members of an object (as `Map::iter` of `serde_json` yields them, each key
/// once) are borrowed.
#[verifier::external_body]
fn inspect(value: &Value) -> (shape: Shape<&Value>)
    ensures
        match shape {
            Shape::Null => value_model(*value) == JsonModel::Null,
            Shape::Bool(b) => value_model(*value) == JsonModel::Bool(b),
            Shape::Number(n) => value_model(*value) == JsonModel::Number(n),
            Shape::String(s) => value_model(*value) == JsonModel::String(s@),
            Shape::Array(items) => value_model(*value) == JsonModel::Array(
                items@.map_values(|item: &Value| value_model(*item)),
            ),
            Shape::Object(members) => value_model(*value) matches JsonModel::Object(map)
                && is_map_of(map, borrowed_members(members@)),
        },
{
    match value {
        Value::Null => Shape::Null,
        Value::Bool(b) => Shape::Bool(*b),
        Value::Number(n) => Shape::Number(n.clone()),
        Value::String(s) => Shape::String(s.clone()),
        Value::Array(items) => Shape::Array(items.iter().collect()),
        Value::Object(map) => Shape::Object(
            map.iter().map(|(key, item)| (key.clone(), item)).collect(),
        ),
    }
}

/// Builds the `serde_json::Value` of the given variant from what it holds one
/// level down. The members of an object are collected into a `serde_json::Map`;
/// their keys are required to be distinct, so that each of them is kept.
#[verifier::external_body]
fn assemble(shape: Shape<Value>) -> (value: Value)
    requires
        shape matches Shape::Object(members) ==> forall|i: int, j: int|
            0 <= i < j < members@.len() ==> (#[trigger] members@[i]).0@ != (
            #[trigger] members@[j]).0@,
    ensures
        match shape {
            Shape::Null => value_model(value) == JsonModel::Null,
            Shape::Bool(b) => value_model(value) == JsonModel::Bool(b),
            Shape::Number(n) => value_model(value) == JsonModel::Number(n),
            Shape::String(s) => value_model(value) == JsonModel::String(s@),
            Shape::Array(items) => value_model(value) == JsonModel::Array(
                items@.map_values(|item: Value| value_model(item)),
            ),
            Shape::Object(members) => value_model(value) matches JsonModel::Object(map)
                && is_map_of(map, owned_members(members@)),
        },
{
    match shape {
        Shape::Null => Value::Null,
        Shape::Bool(b) => Value::Bool(b),
        Shape::Number(n) => Value::Number(n),
        Shape::String(s) => Value::String(s),
        Shape::Array(items) => Value::Array(items),
        Shape::Object(members) => Value::Object(members.into_iter().collect()),
    }
}

/// A map that holds the given members equals the map of a member list with the
/// same keys and models.
proof fn lemma_same_map(
    map: Map<Seq<char>, JsonModel>,
    listed: Seq<(Seq<char>, JsonModel)>,
    members: Seq<(String, ConfigDocument)>,
)
    requires
        is_map_of(map, listed),
        listed.len() == members.len(),
        forall|i: int|
            0 <= i < members.len() ==> (#[trigger] members[i]).0@ == listed[i].0 && doc_model(
                members[i].1,
            ) == listed[i].1,
    ensures
        distinct_keys(members),
        members_model(members, members.len()) == map,
{
    assert(distinct_keys(members)) by {
        assert forall|i: int, j: int| 0 <= i < j < members.len() implies (#[trigger] members[i]).0@
            != (#[trigger] members[j]).0@ by {
            assert(listed[i].0 != listed[j].0);
        }
    }
    let built = members_model(members, members.len());
    lemma_members_domain(members, members.len());
    assert forall|key: Seq<char>| built.contains_key(key) == map.contains_key(key) by {
        if built.contains_key(key) {
            let i = choose|i: int| 0 <= i < members.len() && (#[trigger] members[i]).0@ == key;
            assert(listed[i].0 == key);
        }
        if map.contains_key(key) {
            let i = choose|i: int| 0 <= i < listed.len() && (#[trigger] listed[i]).0 == key;
            assert(members[i].0@ == key);
        }
    }
    assert forall|key: Seq<char>| built.contains_key(key) implies built[key] == map[key] by {
        let i = choose|i: int| 0 <= i < members.len() && (#[trigger] members[i]).0@ == key;
        lemma_members_lookup(members, members.len(), i);
        assert(listed[i].0 == key);
    }
    assert(built =~= map);
}

/// The document that a `serde_json::Value` holds.
pub fn from_value(value: &Value) -> (doc: ConfigDocument)
    ensures
        doc.wf(),
        doc@ == value_model(*value),
    decreases value_model(*value),
{
    match inspect(value) {
        Shape::Null => ConfigDocument::Null,
        Shape::Bool(b) => ConfigDocument::Bool(b),
        Shape::Number(n) => ConfigDocument::Number(n),
        Shape::String(s) => ConfigDocument::String(s),
        Shape::Array(items) => {
            let ghost models = items@.map_values(|item: &Value| value_model(*item));
            let mut out: Vec<ConfigDocument> = Vec::new();
            let mut i: usize = 0;
            while i < items.len()
                invariant
                    i <= items.len(),
                    out.len() == i,
                    value_model(*value) == JsonModel::Array(models),
                    models == items@.map_values(|item: &Value| value_model(*item)),
                    forall|j: int| 0 <= j < i ==> doc_wf(#[trigger] out@[j]),
                    forall|j: int| 0 <= j < i ==> doc_model(#[trigger] out@[j]) == models[j],
                decreases items.len() - i,
            {
                proof {
                    assert(models[i as int] == value_model(*items@[i as int]));
                    assert(decreases_to!(value_model(*value) => value_model(
                        *value,
                    )->Array_0[i as int]));
                }
                let item = from_value(items[i]);
                out.push(item);
                i += 1;
            }
            assert(items_model(out@) =~= models);
            ConfigDocument::Array(out)
        },
        Shape::Object(members) => {
            let ghost listed = borrowed_members(members@);
            let ghost map = value_model(*value)->Object_0;
            let mut out: Vec<(String, ConfigDocument)> = Vec::new();
            let mut i: usize = 0;
            while i < members.len()
                invariant
                    i <= members.len(),
                    out.len() == i,
                    value_model(*value) == JsonModel::Object(map),
                    listed == borrowed_members(members@),
                    is_map_of(map, listed),
                    forall|j: int| 0 <= j < i ==> doc_wf((#[trigger] out@[j]).1),
                    forall|j: int|
                        0 <= j < i ==> (#[trigger] out@[j]).0@ == listed[j].0 && doc_model(
                            out@[j].1,
                        ) == listed[j].1,
                decreases members.len() - i,
            {
                proof {
                    assert(listed[i as int].1 == value_model(*members@[i as int].1));
                    assert(map.contains_key(listed[i as int].0));
                    assert(decreases_to!(value_model(*value) => value_model(
                        *value,
                    )->Object_0[listed[i as int].0]));
                }
                let key = members[i].0.clone();
                let item = from_value(members[i].1);
                out.push((key, item));
                i += 1;
            }
            proof {
                lemma_same_map(map, listed, out@);
            }
            ConfigDocument::Object(out)
        },
    }
}

/// The `serde_json::Value` that holds a document.
pub fn to_value(doc: &ConfigDocument) -> (value: Value)
    requires
        doc.wf(),
    ensures
        value_model(value) == doc@,
    decreases *doc,
{
    match doc {
        ConfigDocument::Null => assemble(Shape::Null),
        ConfigDocument::Bool(b) => assemble(Shape::Bool(*b)),
        ConfigDocument::Number(n) => assemble(Shape::Number(n.clone())),
        ConfigDocument::String(s) => assemble(Shape::String(s.clone())),
        ConfigDocument::Array(items) => {
            let mut out: Vec<Value> = Vec::new();
            let mut i: usize = 0;
            while i < items.len()
                invariant
                    i <= items.len(),
                    out.len() == i,
                    decreases_to!(*doc => *items),
                    forall|j: int| 0 <= j < items.len() ==> doc_wf(#[trigger] items@[j]),
                    forall|j: int|
                        0 <= j < i ==> value_model(#[trigger] out@[j]) == doc_model(items@[j]),
                decreases items.len() - i,
            {
                proof {
                    assert(decreases_to!(*items => items[i as int]));
                }
                let item = to_value(&items[i]);
                out.push(item);
                i += 1;
            }
            assert(out@.map_values(|item: Value| value_model(item)) =~= items_model(items@));
            assemble(Shape::Array(out))
        },
        ConfigDocument::Object(members) => {
            let mut out: Vec<(String, Value)> = Vec::new();
            let mut i: usize = 0;
            while i < members.len()
                invariant
                    i <= members.len(),
                    out.len() == i,
                    decreases_to!(*doc => *members),
                    distinct_keys(members@),
                    forall|j: int| 0 <= j < members.len() ==> doc_wf((#[trigger] members@[j]).1),
                    forall|j: int|
                        0 <= j < i ==> (#[trigger] out@[j]).0@ == members@[j].0@ && value_model(
                            out@[j].1,
                        ) == doc_model(members@[j].1),
                decreases members.len() - i,
            {
                proof {
                    assert(decreases_to!(*members => members[i as int]));
                    assert(decreases_to!(members[i as int] => members[i as int].1));
                }
                let key = members[i].0.clone();
                let item = to_value(&members[i].1);
                out.push((key, item));
                i += 1;
            }
            proof {
                assert forall|a: int, b: int| 0 <= a < b < out@.len() implies (
                #[trigger] out@[a]).0@ != (#[trigger] out@[b]).0@ by {
                    assert(members@[a].0@ != members@[b].0@);
                }
            }
            let ghost listed = owned_members(out@);
            let value = assemble(Shape::Object(out));
            proof {
                lemma_same_map(value_model(value)->Object_0, listed, members@);
            }
            value
        },
    }
}

/// Reads a document from JSON text. Where `serde_json` refuses the text, its
/// message comes back instead.
pub fn parse_document(text: &str) -> (parsed: Result<ConfigDocument, String>)
    ensures
        match parsed {
            Ok(doc) => doc.wf() && parsed_json(text@) == Ok::<JsonModel, Seq<char>>(doc@),
            Err(message) => parsed_json(text@) == Err::<JsonModel, Seq<char>>(message@),
        },
{
    match parse_value(text) {
        Ok(value) => Ok(from_value(&value)),
        Err(message) => Err(message),
    }
}

/// Writes a document as indented JSON text; `None` where the printer reports
/// an error.
pub fn print_document(doc: &ConfigDocument) -> (printed: Option<String>)
    requires
        doc.wf(),
    ensures
        match printed {
            Some(text) => pretty_json(doc@) == Some(text@),
            None => pretty_json(doc@) is None,
        },
{
    let value = to_value(doc);
    match print_value(&value) {
        Ok(text) => Some(text),
        Err(_) => None,
    }
}

} // verus!
