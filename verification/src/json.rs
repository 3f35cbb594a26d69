//! The calls into `serde_json` that the library makes. Each item below is
//! trusted: its contract is read off `serde_json`'s source, not proved.

use vstd::prelude::*;

verus! {

#[verifier::external_type_specification]
#[verifier::external_body]
pub struct ExJsonValue(serde_json::Value);

#[verifier::external_type_specification]
#[verifier::external_body]
pub struct ExJsonError(serde_json::Error);

/// The value that `serde_json::from_str` parses out of `text`, or `None`
/// where it reports a syntax error.
pub uninterp spec fn json_parse(text: Seq<char>) -> Option<serde_json::Value>;

/// Whether `v` is a JSON object.
pub uninterp spec fn json_is_object(v: serde_json::Value) -> bool;

/// The members of the JSON object `v`, in the map's iteration order.
pub uninterp spec fn json_object_entries(v: serde_json::Value) -> Seq<(Seq<char>, serde_json::Value)>;

/// The JSON object whose members are `members`.
pub uninterp spec fn json_object_of(members: Map<Seq<char>, serde_json::Value>) -> serde_json::Value;

/// The map that a list of members denotes, a later member winning over an
/// earlier one with the same key.
pub open spec fn entries_map(s: Seq<(Seq<char>, serde_json::Value)>) -> Map<Seq<char>, serde_json::Value>
    decreases s.len(),
{
    if s.len() == 0 {
        Map::empty()
    } else {
        entries_map(s.drop_last()).insert(s.last().0, s.last().1)
    }
}

/// The JSON string value holding `s`.
pub uninterp spec fn json_string_value(s: Seq<char>) -> serde_json::Value;

/// The JSON boolean value `b`.
pub uninterp spec fn json_bool_value(b: bool) -> serde_json::Value;

/// Compact JSON text of `v`, as `serde_json::to_string` writes it.
pub uninterp spec fn json_text(v: serde_json::Value) -> Seq<char>;

/// Indented JSON text of `v`, as `serde_json::to_string_pretty` writes it.
pub uninterp spec fn json_pretty_text(v: serde_json::Value) -> Seq<char>;

/// The message that an error of `serde_json` displays.
pub uninterp spec fn json_error_message(e: serde_json::Error) -> Seq<char>;

/// A member as a `(key, value)` view.
pub open spec fn member_view(p: (String, serde_json::Value)) -> (Seq<char>, serde_json::Value) {
    (p.0@, p.1)
}

/// Views of a member list.
pub open spec fn members_of(s: Seq<(String, serde_json::Value)>) -> Seq<(Seq<char>, serde_json::Value)> {
    s.map_values(|p: (String, serde_json::Value)| member_view(p))
}

/// Keys of a member list are pairwise distinct.
pub open spec fn entry_keys_unique<V>(m: Seq<(Seq<char>, V)>) -> bool {
    forall|i: int, j: int| 0 <= i < j < m.len() ==> m[i].0 != m[j].0
}

/// Calls `serde_json::from_str::<serde_json::Value>`: the result is a function
/// of the text alone, `None` exactly where the text is not JSON.
#[verifier::external_body]
pub fn parse_json(text: &str) -> (res: Option<serde_json::Value>)
    ensures
        res == json_parse(text@),
{
    serde_json::from_str::<serde_json::Value>(text).ok()
}

/// Takes a `serde_json::Value` apart: an object yields its members as
/// `(key, value)` pairs (keys of a `serde_json::Map` are distinct), any other
/// value is handed back unchanged.
#[verifier::external_body]
pub fn json_object_members(v: serde_json::Value) -> (res: Result<Vec<(String, serde_json::Value)>, serde_json::Value>)
    ensures
        res is Ok <==> json_is_object(v),
        res matches Ok(m) ==> members_of(m@)
            == json_object_entries(v),
        res matches Ok(m) ==> entry_keys_unique(json_object_entries(v)),
        res matches Err(w) ==> w == v,
{
    match v {
        serde_json::Value::Object(map) => Ok(map.into_iter().collect()),
        other => Err(other),
    }
}

/// Builds `serde_json::Value::Object` by collecting `members`, whose keys
/// are distinct, into a `serde_json::Map`. Which of two members with the same
/// key a `Map` keeps is left to std's `BTreeMap::from_iter`, whose
/// documentation does not say, so such lists are not admitted.
#[verifier::external_body]
pub fn json_object(members: Vec<(String, serde_json::Value)>) -> (res: serde_json::Value)
    requires
        entry_keys_unique(members_of(members@)),
    ensures
        res == json_object_of(
            entries_map(members_of(members@)),
        ),
{
    serde_json::Value::Object(members.into_iter().collect())
}

/// Builds `serde_json::Value::String`.
#[verifier::external_body]
pub fn json_string(s: &str) -> (res: serde_json::Value)
    ensures
        res == json_string_value(s@),
{
    serde_json::Value::String(s.to_string())
}

/// Builds `serde_json::Value::Bool`.
#[verifier::external_body]
pub fn json_bool(b: bool) -> (res: serde_json::Value)
    ensures
        res == json_bool_value(b),
{
    serde_json::Value::Bool(b)
}

/// Calls `serde_json::to_string`; what it writes is named, not stated.
/// It always succeeds on a `Value`, for the same reasons as
/// [`json_to_string_pretty`]: a `Value`'s map keys are strings, its numbers
/// are finite, and writing into a `Vec<u8>` cannot fail.
#[verifier::external_body]
pub fn json_to_string(v: &serde_json::Value) -> (res: Result<String, serde_json::Error>)
    ensures
        res is Ok,
        res matches Ok(s) ==> s@ == json_text(*v),
{
    serde_json::to_string(v)
}

/// Calls `serde_json::to_string_pretty`; what it writes is named, not stated.
/// It always succeeds on a `Value`: the function fails only where the value's
/// `Serialize` impl fails or a map has non-string keys, a `Value`'s map keys
/// are strings, its numbers are finite, and writing into the `Vec<u8>` it
/// fills cannot fail.
#[verifier::external_body]
pub fn json_to_string_pretty(v: &serde_json::Value) -> (res: Result<String, serde_json::Error>)
    ensures
        res is Ok,
        res matches Ok(s) ==> s@ == json_pretty_text(*v),
{
    serde_json::to_string_pretty(v)
}

/// Calls `ToString::to_string` on a `serde_json::Error` (its `Display` text).
#[verifier::external_body]
pub fn json_error_to_string(e: &serde_json::Error) -> (res: String)
    ensures
        res@ == json_error_message(*e),
{
    e.to_string()
}

} // verus!
