//! The JSON documents that configure the tool, held as plain values.
//!
//! Parsing and serialising JSON is done by `serde_json`; the tree it yields is
//! converted one for one into [`Json`], which the rest of the library reads.
use vstd::prelude::*;

verus! {

/// `serde_json::Number`: carried through unchanged; the library never looks inside.
#[verifier::external_type_specification]
#[verifier::external_body]
pub struct ExNumber(serde_json::Number);

/// `serde_json::Value`: only the conversions below look inside one.
#[verifier::external_type_specification]
#[verifier::external_body]
pub struct ExValue(serde_json::Value);

/// A JSON value. Object members are kept in the order `serde_json` hands them out.
pub enum Json {
    Null,
    Bool(bool),
    Number(serde_json::Number),
    Str(String),
    Array(Vec<Json>),
    Object(Vec<(String, Json)>),
}

/// The value stored under `key` among object members `es` (the first such member).
pub open spec fn entries_get(es: Seq<(String, Json)>, key: Seq<char>) -> Option<Json>
    decreases es.len(),
{
    if es.len() == 0 {
        None
    } else if es[0].0@ == key {
        Some(es[0].1)
    } else {
        entries_get(es.drop_first(), key)
    }
}

/// `data.get(key)`: the member `key` of an object; nothing for any other value.
pub open spec fn spec_get(data: Json, key: Seq<char>) -> Option<Json> {
    match data {
        Json::Object(es) => entries_get(es@, key),
        _ => None,
    }
}

/// `Value::as_str`: the text of a string value.
pub open spec fn spec_as_str(v: Json) -> Option<Seq<char>> {
    match v {
        Json::Str(s) => Some(s@),
        _ => None,
    }
}

/// The characters that JSON serialisation writes unescaped inside a string:
/// anything but control characters, the quotation mark and the backslash.
pub open spec fn is_plain_json_char(c: char) -> bool {
    c as u32 >= 0x20 && c != '"' && c != '\\'
}

/// A string whose JSON serialisation is its text between quotation marks.
pub open spec fn is_plain_json_string(s: Seq<char>) -> bool {
    forall|i: int| 0 <= i < s.len() ==> is_plain_json_char(#[trigger] s[i])
}

/// What `serde_json::from_str::<Value>` gives for a text: the parsed value, or the
/// error's message.
pub uninterp spec fn spec_parse_json(text: Seq<char>) -> Result<Json, Seq<char>>;

/// The compact serialisation that `serde_json` writes for a value (`Value`'s `Display`).
pub uninterp spec fn spec_json_text(v: Json) -> Seq<char>;

/// Converts a `serde_json::Value` one for one into a [`Json`].
#[verifier::external_body]
fn from_serde(v: serde_json::Value) -> Json {
    match v {
        serde_json::Value::Null => Json::Null,
        serde_json::Value::Bool(b) => Json::Bool(b),
        serde_json::Value::Number(n) => Json::Number(n),
        serde_json::Value::String(s) => Json::Str(s),
        serde_json::Value::Array(a) => Json::Array(a.into_iter().map(from_serde).collect()),
        serde_json::Value::Object(o) => Json::Object(o.into_iter().map(|(k, v)| (k, from_serde(v))).collect()),
    }
}

/// Converts a [`Json`] one for one back into a `serde_json::Value`.
#[verifier::external_body]
fn to_serde(v: &Json) -> serde_json::Value {
    match v {
        Json::Null => serde_json::Value::Null,
        Json::Bool(b) => serde_json::Value::Bool(*b),
        Json::Number(n) => serde_json::Value::Number(n.clone()),
        Json::Str(s) => serde_json::Value::String(s.clone()),
        Json::Array(a) => serde_json::Value::Array(a.iter().map(to_serde).collect()),
        Json::Object(o) => serde_json::Value::Object(o.iter().map(|(k, v)| (k.clone(), to_serde(v))).collect()),
    }
}

/// `serde_json::from_str::<serde_json::Value>`: parses `text`. The contract only ties the
/// outcome to the text through the name `spec_parse_json`; what the parser accepts and
/// what it builds is left to `serde_json`.
#[verifier::external_body]
pub(crate) fn parse_json(text: &str) -> (res: Result<Json, String>)
    ensures
        match res {
            Ok(v) => spec_parse_json(text@) == Ok::<Json, Seq<char>>(v),
            Err(e) => spec_parse_json(text@) == Err::<Json, Seq<char>>(e@),
        },
{
    match serde_json::from_str::<serde_json::Value>(text) {
        Ok(v) => Ok(from_serde(v)),
        Err(e) => Err(e.to_string()),
    }
}

/// `serde_json::Value`'s `Display` (compact serialisation). The contract names the text
/// and states the one fact that the serialiser's escape table shows: a string with no
/// control character, quotation mark or backslash is written as itself between
/// quotation marks. How other values are written is left unsaid.
#[verifier::external_body]
pub(crate) fn json_text(v: &Json) -> (res: String)
    ensures
        res@ == spec_json_text(*v),
        (*v matches Json::Str(s) && is_plain_json_string(s@)) ==> res@ == seq!['"'] + (match *v { Json::Str(s) => s@, _ => seq![] }) + seq!['"'],
{
    to_serde(v).to_string()
}

impl Json {
    /// `Value::get(key)`.
    pub fn get(&self, key: &str) -> (res: Option<&Json>)
        ensures
            match res {
                Some(v) => spec_get(*self, key@) == Some(*v),
                None => spec_get(*self, key@) is None,
            },
    {
        match self {
            Json::Object(es) => {
                let mut i: usize = 0;
                assert(es@.skip(0) == es@);
                while i < es.len()
                    invariant
                        i <= es.len(),
                        spec_get(*self, key@) == entries_get(es@, key@),
                        entries_get(es@, key@) == entries_get(es@.skip(i as int), key@),
                    decreases es.len() - i,
                {
                    assert(es@.skip(i as int).drop_first() == es@.skip(i as int + 1));
                    assert(es@.skip(i as int)[0] == es@[i as int]);
                    if crate::text::str_eq(es[i].0.as_str(), key) {
                        assert(entries_get(es@.skip(i as int), key@) == Some(es@[i as int].1));
                        return Some(&es[i].1);
                    }
                    i = i + 1;
                }
                None
            },
            _ => None,
        }
    }

    /// `Value::as_str`.
    pub fn as_str(&self) -> (res: Option<&str>)
        ensures
            match res {
                Some(s) => spec_as_str(*self) == Some(s@),
                None => spec_as_str(*self) is None,
            },
    {
        match self {
            Json::Str(s) => Some(s.as_str()),
            _ => None,
        }
    }

    /// `Value::is_array`.
    pub fn is_array(&self) -> (res: bool)
        ensures
            res == (*self is Array),
    {
        match self {
            Json::Array(_) => true,
            _ => false,
        }
    }

    /// `Value::is_object`.
    pub fn is_object(&self) -> (res: bool)
        ensures
            res == (*self is Object),
    {
        match self {
            Json::Object(_) => true,
            _ => false,
        }
    }
}

} // verus!
verus! {

/// The member found under a key is one of the object's member values.
pub proof fn lemma_entries_get_index(es: Seq<(String, Json)>, key: Seq<char>)
    ensures
        entries_get(es, key) matches Some(v) ==> exists|j: int| 0 <= j < es.len() && es[j].1 == v,
    decreases es.len(),
{
    if es.len() > 0 && es[0].0@ != key {
        lemma_entries_get_index(es.drop_first(), key);
        if let Some(v) = entries_get(es, key) {
            let j = choose|j: int| 0 <= j < es.drop_first().len() && es.drop_first()[j].1 == v;
            assert(es[j + 1].1 == v);
        }
    }
}

/// The member found under a key is smaller than the object it was found in.
pub proof fn lemma_get_decreases(data: Json, key: Seq<char>)
    ensures
        spec_get(data, key) matches Some(v) ==> decreases_to!(data => v),
{
    if let Json::Object(es) = data {
        lemma_entries_get_index(es@, key);
        if let Some(v) = spec_get(data, key) {
            let j = choose|j: int| 0 <= j < es@.len() && es@[j].1 == v;
            assert(decreases_to!(data => es));
            assert(decreases_to!(es => es@));
            assert(decreases_to!(es@ => es@[j]));
            assert(decreases_to!(es@[j] => es@[j].1));
        }
    }
}

} // verus!
