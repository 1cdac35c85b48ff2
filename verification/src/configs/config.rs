//! Reading typed values out of a JSON node of a configuration.
use vstd::prelude::*;
use indexmap::IndexMap;

use crate::error::BError;
use crate::imap::{entries_insert, index_map_entries, map_insert, map_new};
use crate::json::{parse_json, json_text, spec_as_str, spec_get, spec_json_text, spec_parse_json, Json};
use crate::text::{parse_u32, spec_parse_u32, spec_splitn2, spec_trim_matches, splitn2, trim_matches};

verus! {

/// `prefix`, then `name`, then a closing quote.
pub open spec fn quoted(prefix: Seq<char>, name: Seq<char>) -> Seq<char> {
    prefix + name + "'"@
}

/// Builds `prefix` + `name` + `'`.
pub fn quoted_msg(prefix: &str, name: &str) -> (res: String)
    ensures
        res@ == quoted(prefix@, name@),
{
    proof {
        reveal_strlit("'");
    }
    prefix.to_string().concat(name).concat("'")
}

/// The text of the string member `name` of `data`, if it has one.
pub open spec fn spec_str_member(data: Json, name: Seq<char>) -> Option<Seq<char>> {
    match spec_get(data, name) {
        Some(v) => spec_as_str(v),
        None => None,
    }
}

/// `get_str_value`: the string member `name`; when there is none (missing or not a
/// string) the default, and without a default a `ValueError`.
pub fn get_str_value(name: &str, data: &Json, default: Option<String>) -> (res: Result<String, BError>)
    ensures
        match spec_str_member(*data, name@) {
            Some(s) => res matches Ok(r) && r@ == s,
            None => match default {
                Some(d) => res matches Ok(r) && r@ == d@,
                None => res matches Err(e) && e is ValueError
                    && e.message() == quoted("Failed to read string value '"@, name@),
            },
        },
{
    let value: Option<&str> = match data.get(name) {
        Some(v) => v.as_str(),
        None => None,
    };
    match value {
        Some(v) => Ok(v.to_string()),
        None => match default {
            Some(d) => Ok(d),
            None => Err(BError::ValueError(quoted_msg("Failed to read string value '", name))),
        },
    }
}

/// The member `name` of `data` read as a `u32` written in a string: `None` when there is
/// no such member, `Some(None)` when it is not a string holding a `u32`.
pub open spec fn spec_u32_member(data: Json, name: Seq<char>) -> Option<Option<u32>> {
    match spec_get(data, name) {
        None => None,
        Some(v) => match spec_as_str(v) {
            Some(s) => Some(spec_parse_u32(s)),
            None => Some(None),
        },
    }
}

/// `get_u32_value`: the member `name` as a number written in a string; a member that is
/// not such a string is a `ParseError`; a missing member gives the default, or a
/// `ValueError`.
pub fn get_u32_value(name: &str, data: &Json, default: Option<u32>) -> (res: Result<u32, BError>)
    ensures
        match spec_u32_member(*data, name@) {
            Some(Some(n)) => res == Ok::<u32, BError>(n),
            Some(None) => res matches Err(e) && e is ParseError
                && e.message() == quoted("Failed to parse u32 value '"@, name@),
            None => match default {
                Some(d) => res == Ok::<u32, BError>(d),
                None => res matches Err(e) && e is ValueError
                    && e.message() == quoted("Failed to read u32 value '"@, name@),
            },
        },
{
    match data.get(name) {
        Some(v) => {
            let parsed: Option<u32> = match v.as_str() {
                Some(s) => parse_u32(s),
                None => None,
            };
            match parsed {
                Some(n) => Ok(n),
                None => Err(BError::ParseError(quoted_msg("Failed to parse u32 value '", name))),
            }
        },
        None => match default {
            Some(d) => Ok(d),
            None => Err(BError::ValueError(quoted_msg("Failed to read u32 value '", name))),
        },
    }
}

/// The texts of the string elements of an array, in order; other elements are skipped.
pub open spec fn str_items(items: Seq<Json>) -> Seq<Seq<char>>
    decreases items.len(),
{
    if items.len() == 0 {
        seq![]
    } else {
        let rest = str_items(items.drop_last());
        match spec_as_str(items.last()) {
            Some(s) => rest.push(s),
            None => rest,
        }
    }
}

/// The strings of an array of JSON values (non-strings skipped).
pub fn str_items_of(items: &Vec<Json>) -> (res: Vec<String>)
    ensures
        res@.map_values(|p: String| p@) == str_items(items@),
{
    let mut out: Vec<String> = Vec::new();
    let mut i: usize = 0;
    while i < items.len()
        invariant
            i <= items.len(),
            out@.map_values(|p: String| p@) == str_items(items@.take(i as int)),
        decreases items.len() - i,
    {
        assert(items@.take(i as int + 1).drop_last() == items@.take(i as int));
        assert(items@.take(i as int + 1).last() == items@[i as int]);
        match items[i].as_str() {
            Some(s) => {
                out.push(s.to_string());
            },
            None => {},
        }
        assert(out@.map_values(|p: String| p@) =~= str_items(items@.take(i as int + 1)));
        i = i + 1;
    }
    assert(items@.take(items.len() as int) == items@);
    out
}

/// `get_array_value`: the strings of the array member `name`; a member that is not an
/// array is a `ParseError`; a missing member gives the default, or a `ValueError`.
pub fn get_array_value(name: &str, data: &Json, default: Option<Vec<String>>) -> (res: Result<Vec<String>, BError>)
    ensures
        match spec_get(*data, name@) {
            Some(Json::Array(items)) => res matches Ok(r) && r@.map_values(|p: String| p@) == str_items(items@),
            Some(_) => res matches Err(e) && e is ParseError
                && e.message() == quoted("Failed to read array '"@, name@),
            None => match default {
                Some(d) => res matches Ok(r) && r@ == d@,
                None => res matches Err(e) && e is ValueError
                    && e.message() == quoted("Failed to read array value '"@, name@),
            },
        },
{
    match data.get(name) {
        Some(value) => match value {
            Json::Array(items) => Ok(str_items_of(items)),
            _ => Err(BError::ParseError(quoted_msg("Failed to read array '", name))),
        },
        None => match default {
            Some(d) => Ok(d),
            None => Err(BError::ValueError(quoted_msg("Failed to read array value '", name))),
        },
    }
}

/// The pairs that an array of `KEY=VALUE` entries describes: each element is written as
/// JSON, cut at its first `=`, and both sides lose their surrounding quotation marks;
/// an element without `=` is skipped, and a later key replaces the value of an earlier one.
pub open spec fn pair_entries(items: Seq<Json>) -> Seq<(Seq<char>, Seq<char>)>
    decreases items.len(),
{
    if items.len() == 0 {
        seq![]
    } else {
        let rest = pair_entries(items.drop_last());
        let parts = spec_splitn2(spec_json_text(items.last()), '=');
        if parts.len() == 2 {
            entries_insert(rest, spec_trim_matches(parts[0], '"'), spec_trim_matches(parts[1], '"'))
        } else {
            rest
        }
    }
}

/// `get_hashmap_value`: the `KEY=VALUE` pairs of the array member `name` (see
/// [`pair_entries`]); no member gives an empty map, a member that is not an array a
/// `ParseError`.
pub fn get_hashmap_value(name: &str, data: &Json) -> (res: Result<IndexMap<String, String>, BError>)
    ensures
        match spec_get(*data, name@) {
            Some(Json::Array(items)) => res matches Ok(m) && index_map_entries(m) == pair_entries(items@),
            Some(_) => res matches Err(e) && e is ParseError
                && e.message() == quoted("Failed to parse hashmap. Error when reading object '"@, name@),
            None => res matches Ok(m) && index_map_entries(m) == Seq::<(Seq<char>, Seq<char>)>::empty(),
        },
{
    match data.get(name) {
        Some(value) => match value {
            Json::Array(items) => {
                let mut m = map_new();
                let mut i: usize = 0;
                while i < items.len()
                    invariant
                        i <= items.len(),
                        index_map_entries(m) == pair_entries(items@.take(i as int)),
                    decreases items.len() - i,
                {
                    assert(items@.take(i as int + 1).drop_last() == items@.take(i as int));
                    assert(items@.take(i as int + 1).last() == items@[i as int]);
                    let pair: String = json_text(&items[i]);
                    let parts: Vec<String> = splitn2(pair.as_str(), '=');
                    assert(parts@.map_values(|p: String| p@).len() == parts@.len());
                    if parts.len() == 2 {
                        assert(parts@.map_values(|p: String| p@)[0] == parts@[0]@);
                        assert(parts@.map_values(|p: String| p@)[1] == parts@[1]@);
                        let key = trim_matches(parts[0].as_str(), '"');
                        let value = trim_matches(parts[1].as_str(), '"');
                        map_insert(&mut m, key, value);
                    }
                    i = i + 1;
                }
                assert(items@.take(items.len() as int) == items@);
                Ok(m)
            },
            _ => Err(BError::ParseError(quoted_msg("Failed to parse hashmap. Error when reading object '", name))),
        },
        None => Ok(map_new()),
    }
}

/// `get_str_manifest`: the object member `name` written out as JSON; a member that is not
/// an object is a `ParseError`; a missing member gives the default, or a `ValueError`.
pub fn get_str_manifest(name: &str, data: &Json, default: Option<String>) -> (res: Result<String, BError>)
    ensures
        match spec_get(*data, name@) {
            Some(v) => if v is Object {
                res matches Ok(r) && r@ == spec_json_text(v)
            } else {
                res matches Err(e) && e is ParseError
                    && e.message() == quoted("Failed to parse manifest. Error when reading object '"@, name@)
            },
            None => match default {
                Some(d) => res matches Ok(r) && r@ == d@,
                None => res matches Err(e) && e is ValueError
                    && e.message() == quoted("Failed to read manifest value '"@, name@),
            },
        },
{
    match data.get(name) {
        Some(value) => {
            if value.is_object() {
                Ok(json_text(value))
            } else {
                Err(BError::ParseError(quoted_msg("Failed to parse manifest. Error when reading object '", name)))
            }
        },
        None => match default {
            Some(d) => Ok(d),
            None => Err(BError::ValueError(quoted_msg("Failed to read manifest value '", name))),
        },
    }
}

/// `get_value`: the member `name`, or a `ParseError` when there is none.
pub fn get_value<'a>(name: &str, data: &'a Json) -> (res: Result<&'a Json, BError>)
    ensures
        match spec_get(*data, name@) {
            Some(v) => res matches Ok(r) && *r == v,
            None => res matches Err(e) && e is ParseError
                && e.message() == quoted("Failed to get value '"@, name@),
        },
{
    match data.get(name) {
        Some(v) => Ok(v),
        None => Err(BError::ParseError(quoted_msg("Failed to get value '", name))),
    }
}

/// `parse`: the JSON value of a text, or a `ParseError` that carries the parser's message.
pub fn parse(json_string: &str) -> (res: Result<Json, BError>)
    ensures
        match spec_parse_json(json_string@) {
            Ok(v) => res matches Ok(r) && r == v,
            Err(m) => res matches Err(e) && e is ParseError && e.message() == "Failed to parse JSON: "@ + m,
        },
{
    match parse_json(json_string) {
        Ok(v) => Ok(v),
        Err(m) => {
            proof {
                reveal_strlit("Failed to parse JSON: ");
            }
            Err(BError::ParseError("Failed to parse JSON: ".to_string().concat(m.as_str())))
        },
    }
}

} // verus!
