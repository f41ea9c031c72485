//! JSON values: what they hold, reading, writing and building them.
use serde_json::Value;
use vstd::prelude::*;
use vstd::utf8::encode_utf8;

verus! {

/// `serde_json::Value`, a JSON value.
#[verifier::external_type_specification]
#[verifier::external_body]
pub struct ExValue(Value);

/// `serde_json::Error`, why a text or a value was refused.
#[verifier::external_type_specification]
#[verifier::external_body]
pub struct ExJsonError(serde_json::Error);

/// What a JSON value holds. A number is given by its JSON text, an object by its
/// members in the order in which it keeps them, each name once.
pub enum Json {
    Null,
    Bool(bool),
    Number(Seq<char>),
    Text(Seq<char>),
    Array(Seq<Json>),
    Object(Seq<(Seq<char>, Json)>),
}

/// What a `serde_json::Value` holds.
pub uninterp spec fn contents(v: Value) -> Json;

/// The message of a `serde_json::Error`.
pub uninterp spec fn error_message(e: serde_json::Error) -> Seq<char>;

/// The value that `serde_json::from_str` reads from a text, if it is JSON.
pub uninterp spec fn parsed_json(text: Seq<char>) -> Option<Json>;

/// The text that `serde_json::to_string` writes for a value, if it can.
pub uninterp spec fn json_text(j: Json) -> Option<Seq<char>>;

/// The member of an object with name `key`, if it has one.
pub open spec fn lookup(entries: Seq<(Seq<char>, Json)>, key: Seq<char>) -> Option<Json>
    decreases entries.len(),
{
    if entries.len() == 0 {
        None
    } else if entries.last().0 == key {
        Some(entries.last().1)
    } else {
        lookup(entries.drop_last(), key)
    }
}

/// The member `key` of a JSON value, if that is an object which has one.
pub open spec fn member_of(j: Json, key: Seq<char>) -> Option<Json> {
    match j {
        Json::Object(entries) => lookup(entries, key),
        _ => None,
    }
}

/// The length of a text in bytes.
pub open spec fn text_size(t: Seq<char>) -> usize {
    encode_utf8(t).len() as usize
}

/// The length in bytes of the JSON text of a value; 0 where it has none.
pub open spec fn json_size(j: Json) -> usize {
    match json_text(j) {
        Some(t) => text_size(t),
        None => 0,
    }
}

/// `serde_json::from_str` for a `Value`: whether the text is JSON, and which
/// value it is, depends on the text alone.
#[verifier::external_body]
pub(crate) fn parse_json(text: &str) -> (r: Result<Value, serde_json::Error>)
    ensures
        match r {
            Ok(v) => parsed_json(text@) == Some(contents(v)),
            Err(_) => parsed_json(text@) is None,
        },
{
    serde_json::from_str(text)
}

/// `serde_json::to_string` of a `Value`: the text depends on what the value
/// holds alone.
#[verifier::external_body]
pub(crate) fn json_to_string(v: &Value) -> (r: Result<String, serde_json::Error>)
    ensures
        match r {
            Ok(t) => json_text(contents(*v)) == Some(t@),
            Err(_) => json_text(contents(*v)) is None,
        },
{
    serde_json::to_string(v)
}

/// `Value::get` with a string index: the member of that name, where the value
/// is an object that has one.
#[verifier::external_body]
pub(crate) fn member<'a>(v: &'a Value, key: &str) -> (r: Option<&'a Value>)
    ensures
        match r {
            Some(m) => member_of(contents(*v), key@) == Some(contents(*m)),
            None => member_of(contents(*v), key@) is None,
        },
{
    v.get(key)
}

/// `Value::is_null`: whether the value is `null`.
#[verifier::external_body]
pub(crate) fn is_null(v: &Value) -> (r: bool)
    ensures
        r == (contents(*v) == Json::Null),
{
    v.is_null()
}

/// `Value::String`: a JSON string with the text of `s`.
#[verifier::external_body]
pub(crate) fn json_string(s: String) -> (v: Value)
    ensures
        contents(v) == Json::Text(s@),
{
    Value::String(s)
}

/// What the members of an object hold.
pub open spec fn members(entries: Seq<(String, Value)>) -> Seq<(Seq<char>, Json)> {
    entries.map_values(|e: (String, Value)| (e.0@, contents(e.1)))
}

/// `serde_json::Map::from_iter`, as a `Value::Object`: the JSON object with the
/// given members, in the given order, where no two have the same name.
#[verifier::external_body]
pub(crate) fn json_object(entries: Vec<(String, Value)>) -> (v: Value)
    requires
        forall|i: int, j: int|
            0 <= i < j < entries@.len() ==> (#[trigger] entries@[i]).0@ != (#[trigger] entries@[j]).0@,
    ensures
        contents(v) == Json::Object(members(entries@)),
{
    Value::Object(serde_json::Map::from_iter(entries))
}

/// `ToString::to_string` of a `serde_json::Error`: its message.
#[verifier::external_body]
pub(crate) fn error_to_string(e: &serde_json::Error) -> (s: String)
    ensures
        s@ == error_message(*e),
{
    e.to_string()
}

/// The length in bytes of the JSON text of a value.
pub fn json_len(v: &Value) -> (n: usize)
    ensures
        n == json_size(contents(*v)),
{
    match json_to_string(v) {
        Ok(t) => t.as_str().len(),
        Err(_) => 0,
    }
}

/// A JSON object with one member.
pub fn single_member(key: &str, value: Value) -> (v: Value)
    ensures
        contents(v) == Json::Object(seq![(key@, contents(value))]),
{
    let mut entries: Vec<(String, Value)> = Vec::new();
    entries.push((key.to_owned(), value));
    assert(members(entries@) =~= seq![(key@, contents(value))]);
    json_object(entries)
}

/// A member is found exactly where there is one of the name, and it is one of
/// those; and `lookup` finds nothing else.
pub proof fn law_lookup(entries: Seq<(Seq<char>, Json)>, key: Seq<char>)
    ensures
        lookup(entries, key) is Some <==> exists|i: int| 0 <= i < entries.len() && (#[trigger] entries[i]).0 == key,
        lookup(entries, key) matches Some(v) ==> exists|i: int|
            0 <= i < entries.len() && (#[trigger] entries[i]).0 == key && entries[i].1 == v,
        member_of(Json::Object(entries), key) == lookup(entries, key),
    decreases entries.len(),
{
    if entries.len() > 0 {
        let rest = entries.drop_last();
        law_lookup(rest, key);
        let last = entries.len() - 1;
        if entries[last].0 == key {
            assert(entries[last].1 == entries.last().1);
        } else {
            if lookup(rest, key) is Some {
                let i = choose|i: int|
                    0 <= i < rest.len() && (#[trigger] rest[i]).0 == key && rest[i].1 == lookup(rest, key)->0;
                assert(entries[i] == rest[i]);
            }
            if exists|i: int| 0 <= i < entries.len() && (#[trigger] entries[i]).0 == key {
                let i = choose|i: int| 0 <= i < entries.len() && (#[trigger] entries[i]).0 == key;
                assert(rest[i] == entries[i]);
            }
        }
    }
}

/// The size of a value is the number of bytes of its JSON text.
pub proof fn law_json_size(j: Json, t: Seq<char>)
    ensures
        text_size(t) == encode_utf8(t).len() as usize,
        json_text(j) == Some(t) ==> json_size(j) == encode_utf8(t).len() as usize,
        json_text(j) is None ==> json_size(j) == 0,
{
}

} // verus!
