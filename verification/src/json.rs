//! JSON documents that the library carries as text, and what its checks read of them.
use vstd::prelude::*;

verus! {

/// The JSON text of an empty object.
pub const EMPTY_OBJECT: &'static str = "{}";

/// What `serde_json` parses out of the JSON text `text` when it is an object: each member's
/// name and whether its value is a string, in the order the parsed map yields them. `None`
/// when `text` is not JSON or not a JSON object.
pub uninterp spec fn json_object_members(text: Seq<char>) -> Option<Seq<(Seq<char>, bool)>>;

/// The plain view of parsed members.
pub open spec fn member_views(members: Seq<(String, bool)>) -> Seq<(Seq<char>, bool)> {
    members.map_values(|m: (String, bool)| (m.0@, m.1))
}

/// Parses `text` with `serde_json::from_str` into a `serde_json::Value` and, when it is an
/// object, lists each member's name with `Value::is_string` of its value. The contract names
/// the result: JSON's grammar and the map's order are `serde_json`'s.
#[verifier::external_body]
pub(crate) fn object_members(text: &str) -> (r: Option<Vec<(String, bool)>>)
    ensures
        match r {
            Some(members) => json_object_members(text@) == Some(member_views(members@)),
            None => json_object_members(text@) is None,
        },
{
    let value: serde_json::Value = serde_json::from_str(text).ok()?;
    let object = value.as_object()?;
    Some(object.iter().map(|(name, value)| (name.clone(), value.is_string())).collect())
}

/// Whether the JSON text `text` is an object.
pub fn is_object(text: &str) -> (r: bool)
    ensures
        r == json_object_members(text@) is Some,
{
    object_members(text).is_some()
}

/// A parsed JSON value, as the library holds tool call arguments. A number is kept as its
/// text.
pub enum JsonValue {
    Null,
    Bool(bool),
    Number(String),
    Text(String),
    Array(Vec<JsonValue>),
    Object(Vec<(String, JsonValue)>),
}

/// The first member of an object named `key`.
pub open spec fn member_of(members: Seq<(String, JsonValue)>, key: Seq<char>) -> Option<JsonValue>
    decreases members.len(),
{
    if members.len() == 0 {
        None
    } else if members[0].0@ == key {
        Some(members[0].1)
    } else {
        member_of(members.drop_first(), key)
    }
}

/// The text of a value that is a JSON string.
pub open spec fn text_of(v: Option<JsonValue>) -> Option<Seq<char>> {
    match v {
        Some(JsonValue::Text(s)) => Some(s@),
        _ => None,
    }
}

/// The position of the first member named `key`.
pub open spec fn member_index(members: Seq<(String, JsonValue)>, key: Seq<char>) -> Option<int>
    decreases members.len(),
{
    if members.len() == 0 {
        None
    } else if members[0].0@ == key {
        Some(0)
    } else {
        match member_index(members.drop_first(), key) {
            Some(i) => Some(i + 1),
            None => None,
        }
    }
}

/// The first member named `key` is the one found at the first position holding it.
pub proof fn lemma_member_index(members: Seq<(String, JsonValue)>, key: Seq<char>, i: int)
    requires
        0 <= i <= members.len(),
        forall|j: int| 0 <= j < i ==> (#[trigger] members[j]).0@ != key,
    ensures
        i < members.len() && members[i].0@ == key ==> member_of(members, key) == Some(members[i].1)
            && member_index(members, key) == Some(i),
        i == members.len() ==> member_of(members, key) is None && member_index(members, key) is None,
    decreases i,
{
    if i > 0 {
        assert forall|j: int| 0 <= j < i - 1 implies (#[trigger] members.drop_first()[j]).0@ != key by {
            assert(members.drop_first()[j] == members[j + 1]);
        }
        lemma_member_index(members.drop_first(), key, i - 1);
    }
}

/// The position of the first member named `key` (see [`member_index`]).
pub fn find_member(members: &Vec<(String, JsonValue)>, key: &str) -> (r: Option<usize>)
    ensures
        match r {
            Some(i) => member_index(members@, key@) == Some(i as int) && i < members@.len()
                && member_of(members@, key@) == Some(members@[i as int].1),
            None => member_index(members@, key@) is None && member_of(members@, key@) is None,
        },
{
    let mut i: usize = 0;
    while i < members.len()
        invariant
            i <= members.len(),
            forall|j: int| 0 <= j < i ==> (#[trigger] members@[j]).0@ != key@,
        decreases members.len() - i,
    {
        if crate::text::str_eq(members[i].0.as_str(), key) {
            proof {
                lemma_member_index(members@, key@, i as int);
            }
            return Some(i);
        }
        i = i + 1;
    }
    proof {
        lemma_member_index(members@, key@, i as int);
    }
    None
}

/// The text of the JSON string member `key` of an object.
pub fn text_member<'a>(members: &'a Vec<(String, JsonValue)>, key: &str) -> (r: Option<&'a str>)
    ensures
        match r {
            Some(s) => text_of(member_of(members@, key@)) == Some(s@),
            None => text_of(member_of(members@, key@)) is None,
        },
{
    match find_member(members, key) {
        Some(i) => match &members[i].1 {
            JsonValue::Text(s) => Some(s.as_str()),
            _ => None,
        },
        None => None,
    }
}

/// The members with `key` set to `value`: the first member of that name gets the value;
/// without one, the member is appended.
pub open spec fn with_member(members: Seq<(String, JsonValue)>, key: String, value: JsonValue) -> Seq<
    (String, JsonValue),
> {
    match member_index(members, key@) {
        Some(i) => members.update(i, (members[i].0, value)),
        None => members.push((key, value)),
    }
}

/// Sets the member `key` of an object (see [`with_member`]).
pub fn set_member(members: Vec<(String, JsonValue)>, key: String, value: JsonValue) -> (r: Vec<
    (String, JsonValue),
>)
    ensures
        r@ == with_member(members@, key, value),
{
    let mut members = members;
    match find_member(&members, key.as_str()) {
        Some(i) => {
            let name = members[i].0.clone();
            members.set(i, (name, value));
        },
        None => {
            members.push((key, value));
        },
    }
    members
}

/// Whether `serde_json::from_slice` parses the bytes as one JSON value.
pub uninterp spec fn json_bytes_valid(data: Seq<u8>) -> bool;

/// Whether `serde_json::from_slice::<serde_json::Value>` accepts the bytes. The contract
/// names the answer; JSON's grammar is `serde_json`'s.
#[verifier::external_body]
pub(crate) fn is_json_bytes(data: &[u8]) -> (r: bool)
    ensures
        r == json_bytes_valid(data@),
{
    serde_json::from_slice::<serde_json::Value>(data).is_ok()
}

} // verus!
