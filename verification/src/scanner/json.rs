//! JSON documents as plain values, read with `serde_json`.

use vstd::prelude::*;
use vstd::string::*;

verus! {

/// A JSON value. A number is kept as an unsigned 64-bit integer where it is
/// one, and as `None` where it is negative or has a fraction or an exponent.
/// The members of an object stand in a list; a lookup takes the first member
/// of a name.
#[derive(Debug, PartialEq, Eq)]
pub enum JsonValue {
    Null,
    Bool(bool),
    Number(Option<u64>),
    String(String),
    Array(Vec<JsonValue>),
    Object(Vec<JsonMember>),
}

/// One member of a JSON object.
#[derive(Debug, PartialEq, Eq)]
pub struct JsonMember {
    pub name: String,
    pub value: JsonValue,
}

/// The value of the first of `members` that is named `name`.
pub open spec fn lookup(members: Seq<JsonMember>, name: Seq<char>) -> Option<JsonValue>
    decreases members.len(),
{
    if members.len() == 0 {
        None
    } else if members[0].name@ == name {
        Some(members[0].value)
    } else {
        lookup(members.drop_first(), name)
    }
}

/// Whether every one of `items` is a string.
pub open spec fn all_text(items: Seq<JsonValue>) -> bool {
    forall|i: int| 0 <= i < items.len() ==> (#[trigger] items[i]) is String
}

impl JsonValue {
    /// The member `name` of an object; `None` for any other value and for an
    /// object without that member.
    pub open spec fn member(self, name: Seq<char>) -> Option<JsonValue> {
        match self {
            JsonValue::Object(members) => lookup(members@, name),
            _ => None,
        }
    }

    /// The characters of a string; `None` for any other value.
    pub open spec fn text(self) -> Option<Seq<char>> {
        match self {
            JsonValue::String(t) => Some(t@),
            _ => None,
        }
    }

    /// The number as an unsigned integer; `None` for any other value.
    pub open spec fn number(self) -> Option<u64> {
        match self {
            JsonValue::Number(n) => n,
            _ => None,
        }
    }

    /// The items of an array; `None` for any other value.
    pub open spec fn items(self) -> Option<Seq<JsonValue>> {
        match self {
            JsonValue::Array(items) => Some(items@),
            _ => None,
        }
    }

    /// The member `name`, where it is a string.
    pub open spec fn text_member(self, name: Seq<char>) -> Option<Seq<char>> {
        match self.member(name) {
            Some(v) => v.text(),
            None => None,
        }
    }

    /// The member `name`, where it is an unsigned integer.
    pub open spec fn number_member(self, name: Seq<char>) -> Option<u64> {
        match self.member(name) {
            Some(v) => v.number(),
            None => None,
        }
    }

    /// The member `name`, where it is an array of strings.
    pub open spec fn text_list_member(self, name: Seq<char>) -> Option<Seq<Seq<char>>> {
        match self.member(name) {
            Some(JsonValue::Array(items)) if all_text(items@) => Some(
                items@.map_values(|v: JsonValue| v.text()->0),
            ),
            _ => None,
        }
    }

    /// Looks up the member `name` of an object.
    pub fn get(&self, name: &str) -> (found: Option<&JsonValue>)
        ensures
            match found {
                Some(v) => self.member(name@) == Some(*v),
                None => self.member(name@) is None,
            },
    {
        match self {
            JsonValue::Object(members) => {
                let wanted = String::from_str(name);
                let mut i: usize = 0;
                assert(members@.skip(0) =~= members@);
                while i < members.len()
                    invariant
                        i <= members.len(),
                        wanted@ == name@,
                        self.member(name@) == lookup(members@, name@),
                        lookup(members@, name@) == lookup(members@.skip(i as int), name@),
                    decreases members.len() - i,
                {
                    assert(members@.skip(i as int).drop_first() =~= members@.skip(i + 1));
                    assert(members@.skip(i as int)[0] == members@[i as int]);
                    if members[i].name == wanted {
                        return Some(&members[i].value);
                    }
                    i += 1;
                }
                None
            },
            _ => None,
        }
    }

    /// Looks up the member `name` and reads it as a string.
    pub fn get_text(&self, name: &str) -> (found: Option<String>)
        ensures
            crate::storage::models::optional_text(found) == self.text_member(name@),
    {
        match self.get(name) {
            Some(JsonValue::String(t)) => Some(t.clone()),
            _ => None,
        }
    }

    /// Looks up the member `name` and reads it as an unsigned integer.
    pub fn get_number(&self, name: &str) -> (found: Option<u64>)
        ensures
            found == self.number_member(name@),
    {
        match self.get(name) {
            Some(JsonValue::Number(n)) => *n,
            _ => None,
        }
    }

    /// Looks up the member `name` and reads it as an array of strings.
    pub fn get_text_list(&self, name: &str) -> (found: Option<Vec<String>>)
        ensures
            match found {
                Some(list) => self.text_list_member(name@) == Some(
                    crate::storage::models::texts(list@),
                ),
                None => self.text_list_member(name@) is None,
            },
    {
        match self.get(name) {
            Some(JsonValue::Array(items)) => {
                let mut list: Vec<String> = Vec::new();
                let mut i: usize = 0;
                while i < items.len()
                    invariant
                        i <= items.len(),
                        list.len() == i,
                        self.member(name@) == Some(JsonValue::Array(*items)),
                        forall|k: int| 0 <= k < i ==> (#[trigger] items@[k]) is String,
                        forall|k: int| 0 <= k < i ==> (#[trigger] list@[k])@ == items@[k].text()->0,
                    decreases items.len() - i,
                {
                    match &items[i] {
                        JsonValue::String(t) => {
                            list.push(t.clone());
                        },
                        _ => {
                            assert(!(items@[i as int] is String));
                            return None;
                        },
                    }
                    i += 1;
                }
                assert(crate::storage::models::texts(list@) =~= items@.map_values(
                    |v: JsonValue| v.text()->0,
                ));
                Some(list)
            },
            _ => None,
        }
    }
}

/// `serde_json::Value`, carried from the reading to the rebuilding and not
/// looked into.
#[verifier::external_type_specification]
#[verifier::external_body]
pub struct ExSerdeValue(serde_json::Value);

/// The value that `serde_json` reads from `bytes`; `None` where it reads none.
pub uninterp spec fn json_parsed(bytes: Seq<u8>) -> Option<serde_json::Value>;

/// What a `serde_json::Value` holds.
pub uninterp spec fn json_content(value: serde_json::Value) -> JsonValue;

/// The document that `bytes` hold; `None` where they are not one JSON text.
pub open spec fn json_document(bytes: Seq<u8>) -> Option<JsonValue> {
    match json_parsed(bytes) {
        Some(value) => Some(json_content(value)),
        None => None,
    }
}

/// Calls `serde_json::from_slice` for a `serde_json::Value` and drops the
/// error. Assumed: what comes back depends on the bytes alone.
#[verifier::external_body]
fn read_value(bytes: &[u8]) -> (value: Option<serde_json::Value>)
    ensures
        value == json_parsed(bytes@),
{
    serde_json::from_slice::<serde_json::Value>(bytes).ok()
}

/// Rebuilds a `serde_json::Value` variant by variant. Assumed: what comes
/// back depends on the value alone. A number goes through
/// `serde_json::Number::as_u64`, an object through the iterator of
/// `serde_json::Map`.
#[verifier::external_body]
fn mirror(value: serde_json::Value) -> (tree: JsonValue)
    ensures
        tree == json_content(value),
{
    match value {
        serde_json::Value::Null => JsonValue::Null,
        serde_json::Value::Bool(b) => JsonValue::Bool(b),
        serde_json::Value::Number(n) => JsonValue::Number(n.as_u64()),
        serde_json::Value::String(t) => JsonValue::String(t),
        serde_json::Value::Array(items) => JsonValue::Array(items.into_iter().map(mirror).collect()),
        serde_json::Value::Object(members) => JsonValue::Object(
            members.into_iter().map(|(name, v)| JsonMember { name, value: mirror(v) }).collect(),
        ),
    }
}

/// Reads one JSON document from `bytes`.
pub fn parse_document(bytes: &[u8]) -> (doc: Option<JsonValue>)
    ensures
        doc == json_document(bytes@),
{
    match read_value(bytes) {
        Some(value) => Some(mirror(value)),
        None => None,
    }
}

} // verus!
