//! JSON values the library carries without reading them, and the few reads
//! of them that the command modules make.

use vstd::prelude::*;

verus! {

/// `serde_json::Value`, declared so that answers can hold parts of the
/// API's JSON as sent. Its contents are opaque here.
#[verifier::external_type_specification]
#[verifier::external_body]
pub struct ExJsonValue(serde_json::Value);

/// What `Value::get(key)` then `Value::as_str` give for `v`: the string
/// under `key` when `v` is an object holding a JSON string there.
pub uninterp spec fn json_str_at(v: serde_json::Value, key: Seq<char>) -> Option<Seq<char>>;

/// The string under `key` in `v`, through `Value::get` and `Value::as_str`.
/// The result is a function of `v` and `key` alone, named `json_str_at`.
#[verifier::external_body]
pub fn str_at<'v>(v: &'v serde_json::Value, key: &str) -> (r: Option<&'v str>)
    ensures
        match r {
            Some(s) => json_str_at(*v, key@) == Some(s@),
            None => json_str_at(*v, key@) is None,
        },
{
    v.get(key).and_then(|x| x.as_str())
}

/// The first key of `v` when it is a non-empty object, in the map's own
/// order: with `serde_json`'s `preserve_order` feature, which this crate
/// turns on, the order in which the keys were inserted or read.
pub uninterp spec fn json_first_key(v: serde_json::Value) -> Option<Seq<char>>;

/// `Value::as_object`, then the first key of the map. The result is a
/// function of `v` alone, named `json_first_key`.
#[verifier::external_body]
pub fn first_key<'v>(v: &'v serde_json::Value) -> (r: Option<&'v str>)
    ensures
        match r {
            Some(k) => json_first_key(*v) == Some(k@),
            None => json_first_key(*v) is None,
        },
{
    v.as_object().and_then(|m| m.keys().next()).map(|k| k.as_str())
}

/// The number of entries of the object under `key` in `v`, when `v` is an
/// object holding an object there.
pub uninterp spec fn json_object_len_at(v: serde_json::Value, key: Seq<char>) -> Option<nat>;

/// `Value::get(key)`, `Value::as_object`, then `Map::len`. The result is a
/// function of `v` and `key` alone, named `json_object_len_at`.
#[verifier::external_body]
pub fn object_len_at(v: &serde_json::Value, key: &str) -> (r: Option<usize>)
    ensures
        match r {
            Some(n) => json_object_len_at(*v, key@) == Some(n as nat),
            None => json_object_len_at(*v, key@) is None,
        },
{
    v.get(key).and_then(|x| x.as_object()).map(|m| m.len())
}

/// How `v` reads in a table cell: the contents of a JSON string, the compact
/// JSON text of anything else (`null` stays `null`).
pub uninterp spec fn json_cell_text(v: serde_json::Value) -> Seq<char>;

/// The cell text of `v`: a string's contents through `String::clone`,
/// anything else through `Value::to_string`. The result is a function of
/// `v` alone, named `json_cell_text`.
#[verifier::external_body]
pub fn cell_text(v: &serde_json::Value) -> (r: String)
    ensures
        r@ == json_cell_text(*v),
{
    match v {
        serde_json::Value::String(s) => s.clone(),
        other => other.to_string(),
    }
}

/// Whether `v` is JSON `null`.
pub uninterp spec fn json_is_null(v: serde_json::Value) -> bool;

/// `Value::is_null`. The result is a function of `v` alone, named
/// `json_is_null`.
#[verifier::external_body]
pub fn is_null(v: &serde_json::Value) -> (r: bool)
    ensures
        r == json_is_null(*v),
{
    v.is_null()
}

/// What `Map::insert(key, Value::String(value))` leaves of the JSON object
/// `row`; a row that is no object stays as it was.
pub uninterp spec fn json_with_string_field(row: serde_json::Value, key: Seq<char>, value: Seq<char>) -> serde_json::Value;

/// Sets `key` to the JSON string `value` in the object `row`, through
/// `serde_json::Map::insert`; a row that is no object is handed back as it
/// came. The result is named, not described: it is a function of the three
/// arguments alone.
#[verifier::external_body]
pub fn with_string_field(row: serde_json::Value, key: &str, value: &str) -> (r: serde_json::Value)
    ensures
        r == json_with_string_field(row, key@, value@),
{
    match row {
        serde_json::Value::Object(mut m) => {
            m.insert(key.to_string(), serde_json::Value::String(value.to_string()));
            serde_json::Value::Object(m)
        },
        other => other,
    }
}

// ── Reading and building objects ─────────────────────────────────────────────

/// The entries of a JSON object, as key views and values.
pub open spec fn entry_views(entries: Seq<(String, serde_json::Value)>) -> Seq<
    (Seq<char>, serde_json::Value),
> {
    entries.map_values(|e: (String, serde_json::Value)| (e.0@, e.1))
}

/// The entries of `v` in the map's own order when `v` is an object.
pub uninterp spec fn json_object_entries(v: serde_json::Value) -> Option<
    Seq<(Seq<char>, serde_json::Value)>,
>;

/// `Value::as_object`, then the map's entries in its own order, each key
/// and value copied. The result is a function of `v` alone, named
/// `json_object_entries`.
#[verifier::external_body]
pub fn object_entries(v: &serde_json::Value) -> (r: Option<Vec<(String, serde_json::Value)>>)
    ensures
        match r {
            Some(es) => json_object_entries(*v) == Some(entry_views(es@)),
            None => json_object_entries(*v) is None,
        },
{
    v.as_object().map(|m| m.iter().map(|(k, x)| (k.clone(), x.clone())).collect())
}

/// The JSON object that inserting `entries` in order into an empty map
/// gives.
pub uninterp spec fn json_object_of(entries: Seq<(Seq<char>, serde_json::Value)>) -> serde_json::Value;

/// `Value::Object` of the `serde_json::Map` collected from `entries`, each
/// inserted in order. The result is a function of the entries alone,
/// named `json_object_of`.
#[verifier::external_body]
pub fn object_of(entries: Vec<(String, serde_json::Value)>) -> (r: serde_json::Value)
    ensures
        r == json_object_of(entry_views(entries@)),
{
    serde_json::Value::Object(entries.into_iter().collect())
}

/// The JSON string holding `s`.
pub uninterp spec fn json_string(s: Seq<char>) -> serde_json::Value;

/// `Value::String`. The result is a function of `s` alone, named
/// `json_string`.
#[verifier::external_body]
pub fn string_value(s: &str) -> (r: serde_json::Value)
    ensures
        r == json_string(s@),
{
    serde_json::Value::String(s.to_string())
}

/// The JSON value of an optional string: the string, or `null`.
pub uninterp spec fn json_opt_string(s: Option<Seq<char>>) -> serde_json::Value;

/// `Value::from` of an optional string: the JSON string, or `null` for
/// `None`. The result is a function of the argument alone, named
/// `json_opt_string`.
#[verifier::external_body]
pub fn opt_string_value(s: Option<&str>) -> (r: serde_json::Value)
    ensures
        r == json_opt_string(
            match s {
                Some(x) => Some(x@),
                None => None,
            },
        ),
{
    serde_json::Value::from(s)
}

/// The JSON array of `items`.
pub uninterp spec fn json_array(items: Seq<serde_json::Value>) -> serde_json::Value;

/// `Value::Array`. The result is a function of the items alone, named
/// `json_array`.
#[verifier::external_body]
pub fn array_of(items: Vec<serde_json::Value>) -> (r: serde_json::Value)
    ensures
        r == json_array(items@),
{
    serde_json::Value::Array(items)
}

/// The JSON number `n`.
pub uninterp spec fn json_number(n: int) -> serde_json::Value;

/// `Value::from` of an integer. The result is a function of `n` alone,
/// named `json_number`.
#[verifier::external_body]
pub fn number_value(n: i64) -> (r: serde_json::Value)
    ensures
        r == json_number(n as int),
{
    serde_json::Value::from(n)
}

/// What `{:?}` writes for a list of strings: each quoted and escaped as
/// `str`'s `Debug` does, separated by `, `, in square brackets.
pub uninterp spec fn debug_list(items: Seq<Seq<char>>) -> Seq<char>;

/// `format!("{:?}", items)`. The result is a function of the texts alone,
/// named `debug_list`.
#[verifier::external_body]
pub fn debug_list_text(items: &Vec<String>) -> (r: String)
    ensures
        r@ == debug_list(crate::text::views(items@)),
{
    format!("{:?}", items)
}

/// A copy of `v`, through `Value::clone`: an equal value.
#[verifier::external_body]
pub fn copy_value(v: &serde_json::Value) -> (r: serde_json::Value)
    ensures
        r == *v,
{
    v.clone()
}

/// The JSON boolean `b`.
pub uninterp spec fn json_bool(b: bool) -> serde_json::Value;

/// `Value::Bool`. The result is a function of `b` alone, named `json_bool`.
#[verifier::external_body]
pub fn bool_value(b: bool) -> (r: serde_json::Value)
    ensures
        r == json_bool(b),
{
    serde_json::Value::Bool(b)
}

/// The JSON value of an optional boolean: the boolean, or `null`.
pub uninterp spec fn json_opt_bool(b: Option<bool>) -> serde_json::Value;

/// `Value::from` of an optional boolean. The result is a function of the
/// argument alone, named `json_opt_bool`.
#[verifier::external_body]
pub fn opt_bool_value(b: Option<bool>) -> (r: serde_json::Value)
    ensures
        r == json_opt_bool(b),
{
    serde_json::Value::from(b)
}

/// The JSON value of an optional integer: the number, or `null`.
pub uninterp spec fn json_opt_number(n: Option<int>) -> serde_json::Value;

/// `Value::from` of an optional integer. The result is a function of the
/// argument alone, named `json_opt_number`.
#[verifier::external_body]
pub fn opt_number_value(n: Option<i64>) -> (r: serde_json::Value)
    ensures
        r == json_opt_number(
            match n {
                Some(x) => Some(x as int),
                None => None,
            },
        ),
{
    serde_json::Value::from(n)
}

/// A JSON row with its profile: the `profile` key set to the profile's name
/// when profiles are shown, the row as it was otherwise.
pub open spec fn profile_tagged(v: serde_json::Value, include_profile: bool, profile: Seq<char>) -> serde_json::Value {
    if include_profile {
        json_with_string_field(v, "profile"@, profile)
    } else {
        v
    }
}

/// Sets the `profile` key of a JSON row when `include_profile` (several
/// profiles are queried), so merged rows stay attributable.
pub fn tag_profile(v: serde_json::Value, include_profile: bool, profile: &str) -> (r: serde_json::Value)
    ensures
        r == profile_tagged(v, include_profile, profile@),
{
    if include_profile {
        with_string_field(v, "profile", profile)
    } else {
        v
    }
}

/// The JSON strings of a list of texts.
pub open spec fn json_strings(items: Seq<String>) -> Seq<serde_json::Value> {
    items.map_values(|s: String| json_string(s@))
}

/// The JSON array of a list of strings.
pub fn strings_value(items: &Vec<String>) -> (r: serde_json::Value)
    ensures
        r == json_array(json_strings(items@)),
{
    let mut out: Vec<serde_json::Value> = Vec::new();
    let n = items.len();
    for i in 0..n
        invariant
            n == items@.len(),
            out@ == json_strings(items@.take(i as int)),
    {
        out.push(string_value(items[i].as_str()));
        assert(items@.take(i + 1) =~= items@.take(i as int).push(items@[i as int]));
        assert(out@ =~= json_strings(items@.take(i + 1)));
    }
    assert(items@.take(n as int) =~= items@);
    array_of(out)
}

/// The view of an optional string field.
pub fn opt_str(s: &Option<String>) -> (r: Option<&str>)
    ensures
        match r {
            Some(x) => crate::text::field_view(*s) == Some(x@),
            None => crate::text::field_view(*s) is None,
        },
{
    match s {
        Some(x) => Some(x.as_str()),
        None => None,
    }
}

/// The JSON of an optional string field: the string, or `null`.
pub open spec fn opt_field(s: Option<String>) -> serde_json::Value {
    json_opt_string(crate::text::field_view(s))
}

/// The JSON of an optional string field.
pub fn opt_field_value(s: &Option<String>) -> (r: serde_json::Value)
    ensures
        r == opt_field(*s),
{
    opt_string_value(opt_str(s))
}

/// The JSON number counting `n` things.
pub uninterp spec fn json_count(n: nat) -> serde_json::Value;

/// `Value::from` of a `usize`. The result is a function of `n` alone,
/// named `json_count`.
#[verifier::external_body]
pub fn count_value(n: usize) -> (r: serde_json::Value)
    ensures
        r == json_count(n as nat),
{
    serde_json::Value::from(n)
}

/// An optional 64-bit integer as a mathematical one.
pub open spec fn opt_int(n: Option<i64>) -> Option<int> {
    match n {
        Some(x) => Some(x as int),
        None => None,
    }
}

/// The JSON value of an optional count: the number, or `null`.
pub uninterp spec fn json_opt_count(n: Option<nat>) -> serde_json::Value;

/// `Value::from` of an optional `u64`. The result is a function of the
/// argument alone, named `json_opt_count`.
#[verifier::external_body]
pub fn opt_count_value(n: Option<u64>) -> (r: serde_json::Value)
    ensures
        r == json_opt_count(
            match n {
                Some(x) => Some(x as nat),
                None => None,
            },
        ),
{
    serde_json::Value::from(n)
}

// ── Paths into values ────────────────────────────────────────────────────────

/// The value under `key` when `v` is an object holding one.
pub uninterp spec fn json_get(v: serde_json::Value, key: Seq<char>) -> Option<serde_json::Value>;

/// `Value::get(key)`, the value copied. The result is a function of `v` and
/// `key` alone, named `json_get`.
#[verifier::external_body]
pub fn get_value(v: &serde_json::Value, key: &str) -> (r: Option<serde_json::Value>)
    ensures
        r == json_get(*v, key@),
{
    v.get(key).cloned()
}

/// What `Map::remove(key)` leaves of the object `v` (with the map's order
/// kept as `serde_json` keeps it); anything else stays as it was.
pub uninterp spec fn json_without(v: serde_json::Value, key: Seq<char>) -> serde_json::Value;

/// Removes `key` from the object `v` through `Map::remove`; a value that
/// is no object comes back as it was. The result is a function of `v` and
/// `key` alone, named `json_without`.
#[verifier::external_body]
pub fn without_key(v: serde_json::Value, key: &str) -> (r: serde_json::Value)
    ensures
        r == json_without(v, key@),
{
    match v {
        serde_json::Value::Object(mut m) => {
            m.remove(key);
            serde_json::Value::Object(m)
        },
        other => other,
    }
}

/// What `Map::insert(key, value)` leaves of the object `v`; anything else
/// stays as it was.
pub uninterp spec fn json_with_field(v: serde_json::Value, key: Seq<char>, value: serde_json::Value) -> serde_json::Value;

/// Sets `key` to `value` in the object `v` through `Map::insert`; a value
/// that is no object comes back as it was. The result is a function of the
/// three arguments alone, named `json_with_field`.
#[verifier::external_body]
pub fn with_field(v: serde_json::Value, key: &str, value: serde_json::Value) -> (r: serde_json::Value)
    ensures
        r == json_with_field(v, key@, value),
{
    match v {
        serde_json::Value::Object(mut m) => {
            m.insert(key.to_string(), value);
            serde_json::Value::Object(m)
        },
        other => other,
    }
}

/// The string `Value::pointer(path)` then `Value::as_str` find in `v`.
pub uninterp spec fn json_str_at_pointer(v: serde_json::Value, path: Seq<char>) -> Option<Seq<char>>;

/// `Value::pointer(path)` then `Value::as_str`. The result is a function of
/// `v` and `path` alone, named `json_str_at_pointer`.
#[verifier::external_body]
pub fn str_at_pointer<'v>(v: &'v serde_json::Value, path: &str) -> (r: Option<&'v str>)
    ensures
        match r {
            Some(s) => json_str_at_pointer(*v, path@) == Some(s@),
            None => json_str_at_pointer(*v, path@) is None,
        },
{
    v.pointer(path).and_then(|x| x.as_str())
}

/// The items of the array `Value::pointer(path)` finds in `v`.
pub uninterp spec fn json_array_at_pointer(v: serde_json::Value, path: Seq<char>) -> Option<Seq<serde_json::Value>>;

/// `Value::pointer(path)` then `Value::as_array`, the items copied. The
/// result is a function of `v` and `path` alone, named
/// `json_array_at_pointer`.
#[verifier::external_body]
pub fn array_at_pointer(v: &serde_json::Value, path: &str) -> (r: Option<Vec<serde_json::Value>>)
    ensures
        match r {
            Some(items) => json_array_at_pointer(*v, path@) == Some(items@),
            None => json_array_at_pointer(*v, path@) is None,
        },
{
    v.pointer(path).and_then(|x| x.as_array()).cloned()
}

/// The value `Value::pointer(path)` finds in `v`.
pub uninterp spec fn json_at_pointer(v: serde_json::Value, path: Seq<char>) -> Option<serde_json::Value>;

/// `Value::pointer(path)`, the value copied. The result is a function of
/// `v` and `path` alone, named `json_at_pointer`.
#[verifier::external_body]
pub fn at_pointer(v: &serde_json::Value, path: &str) -> (r: Option<serde_json::Value>)
    ensures
        r == json_at_pointer(*v, path@),
{
    v.pointer(path).cloned()
}

/// The contents of `v` when it is a JSON string.
pub uninterp spec fn json_as_str(v: serde_json::Value) -> Option<Seq<char>>;

/// `Value::as_str`. The result is a function of `v` alone, named
/// `json_as_str`.
#[verifier::external_body]
pub fn as_str_of<'v>(v: &'v serde_json::Value) -> (r: Option<&'v str>)
    ensures
        match r {
            Some(s) => json_as_str(*v) == Some(s@),
            None => json_as_str(*v) is None,
        },
{
    v.as_str()
}

/// The number `v` holds when it is a JSON integer that fits in a `u64`.
pub uninterp spec fn json_as_u64(v: serde_json::Value) -> Option<u64>;

/// `Value::as_u64`. The result is a function of `v` alone, named
/// `json_as_u64`.
#[verifier::external_body]
pub fn as_u64_of(v: &serde_json::Value) -> (r: Option<u64>)
    ensures
        r == json_as_u64(*v),
{
    v.as_u64()
}

/// The number `v` holds when it is a JSON integer that fits in an `i64`.
pub uninterp spec fn json_as_i64(v: serde_json::Value) -> Option<i64>;

/// `Value::as_i64`. The result is a function of `v` alone, named
/// `json_as_i64`.
#[verifier::external_body]
pub fn as_i64_of(v: &serde_json::Value) -> (r: Option<i64>)
    ensures
        r == json_as_i64(*v),
{
    v.as_i64()
}

/// The JSON of an optional value: the value, or `null`.
pub uninterp spec fn json_or_null(v: Option<serde_json::Value>) -> serde_json::Value;

/// The value, or `Value::Null` for `None`, as `serde_json` writes an
/// `Option<Value>`. The result is a function of the argument alone, named
/// `json_or_null`; a present value is handed back as it is.
#[verifier::external_body]
pub fn value_or_null(v: Option<serde_json::Value>) -> (r: serde_json::Value)
    ensures
        r == json_or_null(v),
        v matches Some(x) ==> r == x,
{
    v.unwrap_or(serde_json::Value::Null)
}

/// The first of two lookups that found something.
pub open spec fn or_else(a: Option<serde_json::Value>, b: Option<serde_json::Value>) -> Option<serde_json::Value> {
    if a is Some {
        a
    } else {
        b
    }
}

// ── Parsing ──────────────────────────────────────────────────────────────────

/// The JSON value `text` holds, when it is JSON.
pub uninterp spec fn json_parse(text: Seq<char>) -> Option<serde_json::Value>;

/// `serde_json::from_str::<Value>`. The result is a function of the text
/// alone, named `json_parse`.
#[verifier::external_body]
pub fn parse_json(text: &str) -> (r: Option<serde_json::Value>)
    ensures
        r == json_parse(text@),
{
    serde_json::from_str::<serde_json::Value>(text).ok()
}

/// The message `serde_json` gives for text that is not JSON.
pub uninterp spec fn json_parse_error(text: Seq<char>) -> Seq<char>;

/// `serde_json::from_str::<Value>`, keeping the error's message when the
/// text is not JSON. Both the value and the message are functions of the
/// text alone, named `json_parse` and `json_parse_error`.
#[verifier::external_body]
pub fn parse_json_reporting(text: &str) -> (r: Result<serde_json::Value, String>)
    ensures
        match r {
            Ok(v) => json_parse(text@) == Some(v),
            Err(m) => json_parse(text@) is None && m@ == json_parse_error(text@),
        },
{
    serde_json::from_str::<serde_json::Value>(text).map_err(|e| e.to_string())
}

/// Whether `v` is a JSON object.
pub uninterp spec fn json_is_object(v: serde_json::Value) -> bool;

/// `Value::is_object`. The result is a function of `v` alone, named
/// `json_is_object`.
#[verifier::external_body]
pub fn is_object(v: &serde_json::Value) -> (r: bool)
    ensures
        r == json_is_object(*v),
{
    v.is_object()
}

/// The items of `v` when it is an array.
pub uninterp spec fn json_array_items(v: serde_json::Value) -> Option<Seq<serde_json::Value>>;

/// `Value::as_array`, the items copied. The result is a function of `v`
/// alone, named `json_array_items`.
#[verifier::external_body]
pub fn array_items(v: &serde_json::Value) -> (r: Option<Vec<serde_json::Value>>)
    ensures
        match r {
            Some(items) => json_array_items(*v) == Some(items@),
            None => json_array_items(*v) is None,
        },
{
    v.as_array().cloned()
}

} // verus!
